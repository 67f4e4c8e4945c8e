//! The flat cloud-change report: given path/change pairs, either a small
//! structured document or one console line per pair, sorted by change kind
//! and then by path.

use vstd::prelude::*;

use crate::change::ScanChange;
use crate::json::{member_views, obj_text, push_obj, quoted, quoted_string, Member};
use crate::order::{ranked_views, sort_ranked, spec_sort_ranked, RankedKey};
use crate::report::dedup_push;
use crate::scan::str_views;

verus! {

/// One path whose cloud copy differs from the local one.
pub struct CloudChange {
    pub path: String,
    pub change: ScanChange,
}

pub struct CloudChangeModel {
    pub path: Seq<char>,
    pub change: ScanChange,
}

impl View for CloudChange {
    type V = CloudChangeModel;

    open spec fn view(&self) -> CloudChangeModel {
        CloudChangeModel { path: self.path@, change: self.change }
    }
}

pub open spec fn cloud_views(s: Seq<CloudChange>) -> Seq<CloudChangeModel> {
    Seq::new(s.len(), |i: int| s[i]@)
}

/// The structured report sorts by path alone.
pub open spec fn cloud_path_keys(cs: Seq<CloudChangeModel>) -> Seq<RankedKey> {
    Seq::new(cs.len(), |i: int| (0u64, cs[i].path, i as usize))
}

/// The console report sorts by change kind, then path.
pub open spec fn cloud_line_keys(cs: Seq<CloudChangeModel>) -> Seq<RankedKey> {
    Seq::new(cs.len(), |i: int| (cs[i].change.spec_rank(), cs[i].path, i as usize))
}

pub open spec fn change_obj_text(c: ScanChange) -> Seq<char> {
    obj_text(seq![("change"@, quoted(c.spec_json_name()))], 4)
}

pub open spec fn cloud_entries_upto(cs: Seq<CloudChangeModel>, order: Seq<RankedKey>) -> Seq<Member>
    decreases order.len(),
{
    if order.len() == 0 {
        Seq::empty()
    } else {
        let pos = order.last().2 as int;
        dedup_push(
            cloud_entries_upto(cs, order.drop_last()),
            cs[pos].path,
            change_obj_text(cs[pos].change),
        )
    }
}

/// The structured cloud report: one object keyed by path, sorted, a later
/// entry for a path replacing an earlier one.
pub open spec fn cloud_document_text(cs: Seq<CloudChangeModel>) -> Seq<char> {
    obj_text(
        seq![
            ("cloud"@, obj_text(cloud_entries_upto(cs, spec_sort_ranked(cloud_path_keys(cs))), 2)),
        ],
        0,
    )
}

/// One console line: the change's symbol, then the path.
pub open spec fn cloud_line(c: CloudChangeModel) -> Seq<char> {
    "["@ + c.change.spec_symbol() + "] "@ + c.path
}

pub open spec fn cloud_lines_upto(cs: Seq<CloudChangeModel>, order: Seq<RankedKey>) -> Seq<
    Seq<char>,
>
    decreases order.len(),
{
    if order.len() == 0 {
        Seq::empty()
    } else {
        cloud_lines_upto(cs, order.drop_last()).push(cloud_line(cs[order.last().2 as int]))
    }
}

pub open spec fn spec_cloud_lines(cs: Seq<CloudChangeModel>) -> Seq<Seq<char>> {
    cloud_lines_upto(cs, spec_sort_ranked(cloud_line_keys(cs)))
}

pub open spec fn no_changes_message() -> Seq<char> {
    "No cloud changes."@
}

/// What the cloud-change report asks the caller to emit: a structured
/// document for the error stream, a single no-changes message, or plain
/// console lines.
pub enum CloudChangeOutput {
    Structured { document: String },
    NoChanges { message: String },
    Lines { lines: Vec<String> },
}

fn change_obj_string(c: ScanChange) -> (r: String)
    ensures
        r@ == change_obj_text(c),
{
    let mut ms: Vec<(String, String)> = Vec::new();
    ms.push(("change".to_owned(), quoted_string(c.json_name())));
    proof {
        assert(member_views(ms@) =~= seq![("change"@, quoted(c.spec_json_name()))]);
    }
    let mut out = String::new();
    push_obj(&mut out, &ms, 4);
    proof {
        assert(out@ =~= change_obj_text(c));
    }
    out
}

/// Renders the cloud-change report in the requested mode.
pub fn report_cloud_changes(changes: &Vec<CloudChange>, api: bool) -> (r: CloudChangeOutput)
    ensures
        api ==> (r matches CloudChangeOutput::Structured { document } && document@
            == cloud_document_text(cloud_views(changes@))),
        !api && changes@.len() == 0 ==> (r matches CloudChangeOutput::NoChanges { message }
            && message@ == no_changes_message()),
        !api && changes@.len() > 0 ==> (r matches CloudChangeOutput::Lines { lines } && str_views(
            lines@,
        ) == spec_cloud_lines(cloud_views(changes@))),
{
    let ghost cv = cloud_views(changes@);
    if api {
        let mut keys: Vec<(u64, String, usize)> = Vec::new();
        let mut i: usize = 0;
        proof {
            assert(ranked_views(keys@) =~= cloud_path_keys(cv).take(0));
        }
        while i < changes.len()
            invariant
                i <= changes@.len(),
                cv == cloud_views(changes@),
                cv.len() == changes@.len(),
                ranked_views(keys@) == cloud_path_keys(cv).take(i as int),
            decreases changes@.len() - i,
        {
            let ghost pre = keys@;
            proof {
                assert(ranked_views(pre).len() == pre.len());
                assert(cloud_path_keys(cv).take(i as int).len() == i);
                assert(cv[i as int].path == changes@[i as int].path@);
            }
            keys.push((0u64, changes[i].path.clone(), i));
            proof {
                assert(ranked_views(keys@) =~= cloud_path_keys(cv).take(i as int + 1));
            }
            i += 1;
        }
        proof {
            assert(cloud_path_keys(cv).take(changes@.len() as int) =~= cloud_path_keys(cv));
        }
        let sorted = sort_ranked(keys);
        let ghost order = spec_sort_ranked(cloud_path_keys(cv));
        proof {
            assert forall|t: int| 0 <= t < cloud_path_keys(cv).len() implies (
            #[trigger] cloud_path_keys(cv)[t]).2 < changes@.len() by {}
            crate::order::lemma_sort_ranked_positions(cloud_path_keys(cv), changes.len());
            crate::order::lemma_sort_ranked_len(cloud_path_keys(cv));
        }
        let mut entries: Vec<(String, String)> = Vec::new();
        let mut t: usize = 0;
        proof {
            assert(order.take(0) =~= Seq::<RankedKey>::empty());
            assert(member_views(entries@) =~= cloud_entries_upto(cv, order.take(0)));
        }
        while t < sorted.len()
            invariant
                t <= sorted@.len(),
                cv == cloud_views(changes@),
                cv.len() == changes@.len(),
                ranked_views(sorted@) == order,
                order == spec_sort_ranked(cloud_path_keys(cv)),
                order.len() == sorted@.len(),
                forall|u: int| 0 <= u < order.len() ==> (#[trigger] order[u]).2 < changes@.len(),
                member_views(entries@) == cloud_entries_upto(cv, order.take(t as int)),
            decreases sorted@.len() - t,
        {
            proof {
                assert(ranked_views(sorted@)[t as int] == order[t as int]);
                assert(order.take(t as int + 1).drop_last() =~= order.take(t as int));
                assert(order.take(t as int + 1).last() == order[t as int]);
            }
            let pos = sorted[t].2;
            let ghost pre = member_views(entries@);
            proof {
                assert(pre.len() == entries@.len());
                assert(cv[pos as int].path == changes@[pos as int].path@);
                assert(cv[pos as int].change == changes@[pos as int].change);
            }
            let key = changes[pos].path.clone();
            let value = change_obj_string(changes[pos].change);
            if entries.len() > 0 {
                let last = entries.len() - 1;
                if entries[last].0 == key {
                    entries.set(last, (key, value));
                    proof {
                        assert(member_views(entries@) =~= pre.drop_last().push(
                            (cv[pos as int].path, change_obj_text(cv[pos as int].change)),
                        ));
                    }
                } else {
                    entries.push((key, value));
                    proof {
                        assert(member_views(entries@) =~= pre.push(
                            (cv[pos as int].path, change_obj_text(cv[pos as int].change)),
                        ));
                    }
                }
            } else {
                entries.push((key, value));
                proof {
                    assert(member_views(entries@) =~= pre.push(
                        (cv[pos as int].path, change_obj_text(cv[pos as int].change)),
                    ));
                }
            }
            t += 1;
        }
        proof {
            assert(order.take(sorted@.len() as int) =~= order);
        }
        let mut inner = String::new();
        push_obj(&mut inner, &entries, 2);
        let mut ms: Vec<(String, String)> = Vec::new();
        ms.push(("cloud".to_owned(), inner));
        proof {
            assert(member_views(ms@) =~= seq![
                ("cloud"@, obj_text(cloud_entries_upto(cv, order), 2)),
            ]);
        }
        let mut document = String::new();
        push_obj(&mut document, &ms, 0);
        proof {
            assert(document@ =~= cloud_document_text(cv));
        }
        return CloudChangeOutput::Structured { document };
    }
    if changes.len() == 0 {
        return CloudChangeOutput::NoChanges { message: "No cloud changes.".to_owned() };
    }
    let mut keys: Vec<(u64, String, usize)> = Vec::new();
    let mut i: usize = 0;
    proof {
        assert(ranked_views(keys@) =~= cloud_line_keys(cv).take(0));
    }
    while i < changes.len()
        invariant
            i <= changes@.len(),
            cv == cloud_views(changes@),
            cv.len() == changes@.len(),
            ranked_views(keys@) == cloud_line_keys(cv).take(i as int),
        decreases changes@.len() - i,
    {
        let ghost pre = keys@;
        proof {
            assert(ranked_views(pre).len() == pre.len());
            assert(cloud_line_keys(cv).take(i as int).len() == i);
            assert(cv[i as int].path == changes@[i as int].path@);
            assert(cv[i as int].change == changes@[i as int].change);
        }
        keys.push((changes[i].change.rank(), changes[i].path.clone(), i));
        proof {
            assert(ranked_views(keys@) =~= cloud_line_keys(cv).take(i as int + 1));
        }
        i += 1;
    }
    proof {
        assert(cloud_line_keys(cv).take(changes@.len() as int) =~= cloud_line_keys(cv));
    }
    let sorted = sort_ranked(keys);
    let ghost order = spec_sort_ranked(cloud_line_keys(cv));
    proof {
        assert forall|t: int| 0 <= t < cloud_line_keys(cv).len() implies (
        #[trigger] cloud_line_keys(cv)[t]).2 < changes@.len() by {}
        crate::order::lemma_sort_ranked_positions(cloud_line_keys(cv), changes.len());
        crate::order::lemma_sort_ranked_len(cloud_line_keys(cv));
    }
    let mut lines: Vec<String> = Vec::new();
    let mut t: usize = 0;
    proof {
        assert(order.take(0) =~= Seq::<RankedKey>::empty());
        assert(str_views(lines@) =~= cloud_lines_upto(cv, order.take(0)));
    }
    while t < sorted.len()
        invariant
            t <= sorted@.len(),
            cv == cloud_views(changes@),
            cv.len() == changes@.len(),
            ranked_views(sorted@) == order,
            order == spec_sort_ranked(cloud_line_keys(cv)),
            order.len() == sorted@.len(),
            forall|u: int| 0 <= u < order.len() ==> (#[trigger] order[u]).2 < changes@.len(),
            str_views(lines@) == cloud_lines_upto(cv, order.take(t as int)),
        decreases sorted@.len() - t,
    {
        proof {
            assert(ranked_views(sorted@)[t as int] == order[t as int]);
            assert(order.take(t as int + 1).drop_last() =~= order.take(t as int));
            assert(order.take(t as int + 1).last() == order[t as int]);
        }
        let pos = sorted[t].2;
        let ghost pre = str_views(lines@);
        proof {
            assert(pre.len() == lines@.len());
            assert(cv[pos as int].path == changes@[pos as int].path@);
            assert(cv[pos as int].change == changes@[pos as int].change);
        }
        let mut line = String::new();
        line.append("[");
        line.append(changes[pos].change.symbol());
        line.append("] ");
        line.append(changes[pos].path.as_str());
        proof {
            assert(line@ =~= cloud_line(cv[pos as int]));
        }
        lines.push(line);
        proof {
            assert(str_views(lines@) =~= cloud_lines_upto(cv, order.take(t as int + 1)));
        }
        t += 1;
    }
    proof {
        assert(order.take(sorted@.len() as int) =~= order);
    }
    CloudChangeOutput::Lines { lines }
}

} // verus!
