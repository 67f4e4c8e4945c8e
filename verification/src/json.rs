//! The structured output's serialization rules: string escaping and the
//! pretty-printed layout of objects and arrays, two spaces per level, keys
//! and values separated by a colon and one space, members separated by
//! commas, and empty objects and arrays written on one line.

use vstd::prelude::*;

use crate::fmt::push_char;

verus! {

pub open spec fn spec_hex(d: nat) -> char {
    if d == 0 {
        '0'
    } else if d == 1 {
        '1'
    } else if d == 2 {
        '2'
    } else if d == 3 {
        '3'
    } else if d == 4 {
        '4'
    } else if d == 5 {
        '5'
    } else if d == 6 {
        '6'
    } else if d == 7 {
        '7'
    } else if d == 8 {
        '8'
    } else if d == 9 {
        '9'
    } else if d == 10 {
        'a'
    } else if d == 11 {
        'b'
    } else if d == 12 {
        'c'
    } else if d == 13 {
        'd'
    } else if d == 14 {
        'e'
    } else {
        'f'
    }
}

/// How one character appears inside a JSON string literal: quote and
/// backslash escaped, the named control characters short-escaped, any other
/// control character written as a four-digit escape, everything else as is.
pub open spec fn esc_char(c: char) -> Seq<char> {
    if c == '"' {
        seq!['\\', '"']
    } else if c == '\\' {
        seq!['\\', '\\']
    } else if c == '\u{8}' {
        seq!['\\', 'b']
    } else if c == '\u{c}' {
        seq!['\\', 'f']
    } else if c == '\n' {
        seq!['\\', 'n']
    } else if c == '\r' {
        seq!['\\', 'r']
    } else if c == '\t' {
        seq!['\\', 't']
    } else if (c as u32) < 32 {
        seq!['\\', 'u', '0', '0', spec_hex(((c as u32) / 16) as nat), spec_hex(
            ((c as u32) % 16) as nat,
        )]
    } else {
        seq![c]
    }
}

pub open spec fn escaped(s: Seq<char>) -> Seq<char>
    decreases s.len(),
{
    if s.len() == 0 {
        Seq::empty()
    } else {
        esc_char(s[0]) + escaped(s.skip(1))
    }
}

/// A JSON string literal: the escaped text between double quotes.
pub open spec fn quoted(s: Seq<char>) -> Seq<char> {
    seq!['"'] + escaped(s) + seq!['"']
}

pub open spec fn bool_text(b: bool) -> Seq<char> {
    if b {
        "true"@
    } else {
        "false"@
    }
}

pub open spec fn spaces(n: nat) -> Seq<char>
    decreases n,
{
    if n == 0 {
        Seq::empty()
    } else {
        spaces((n - 1) as nat) + seq![' ']
    }
}

/// A rendered object member: key and already-rendered value text.
pub type Member = (Seq<char>, Seq<char>);

pub open spec fn member_line(m: Member, ind: nat) -> Seq<char> {
    spaces(ind) + quoted(m.0) + ": "@ + m.1
}

pub open spec fn members_text(ms: Seq<Member>, ind: nat) -> Seq<char>
    decreases ms.len(),
{
    if ms.len() == 0 {
        Seq::empty()
    } else if ms.len() == 1 {
        member_line(ms[0], ind) + "\n"@
    } else {
        member_line(ms[0], ind) + ",\n"@ + members_text(ms.skip(1), ind)
    }
}

/// A pretty-printed object whose member values are already rendered.
pub open spec fn obj_text(ms: Seq<Member>, ind: nat) -> Seq<char> {
    if ms.len() == 0 {
        "{}"@
    } else {
        "{\n"@ + members_text(ms, ind + 2) + spaces(ind) + seq!['}']
    }
}

pub open spec fn item_text(vs: Seq<Seq<char>>, ind: nat) -> Seq<char>
    decreases vs.len(),
{
    if vs.len() == 0 {
        Seq::empty()
    } else if vs.len() == 1 {
        spaces(ind) + vs[0] + "\n"@
    } else {
        spaces(ind) + vs[0] + ",\n"@ + item_text(vs.skip(1), ind)
    }
}

/// A pretty-printed array whose items are already rendered.
pub open spec fn arr_text(vs: Seq<Seq<char>>, ind: nat) -> Seq<char> {
    if vs.len() == 0 {
        "[]"@
    } else {
        "[\n"@ + item_text(vs, ind + 2) + spaces(ind) + seq![']']
    }
}

pub open spec fn member_views(ms: Seq<(String, String)>) -> Seq<Member> {
    Seq::new(ms.len(), |i: int| (ms[i].0@, ms[i].1@))
}

pub open spec fn item_views(vs: Seq<String>) -> Seq<Seq<char>> {
    Seq::new(vs.len(), |i: int| vs[i]@)
}

fn hex_char(d: u32) -> (c: char)
    requires
        d < 16,
    ensures
        c == spec_hex(d as nat),
{
    if d == 0 {
        '0'
    } else if d == 1 {
        '1'
    } else if d == 2 {
        '2'
    } else if d == 3 {
        '3'
    } else if d == 4 {
        '4'
    } else if d == 5 {
        '5'
    } else if d == 6 {
        '6'
    } else if d == 7 {
        '7'
    } else if d == 8 {
        '8'
    } else if d == 9 {
        '9'
    } else if d == 10 {
        'a'
    } else if d == 11 {
        'b'
    } else if d == 12 {
        'c'
    } else if d == 13 {
        'd'
    } else if d == 14 {
        'e'
    } else {
        'f'
    }
}

fn push_esc_char(out: &mut String, c: char)
    ensures
        final(out)@ == old(out)@ + esc_char(c),
{
    if c == '"' {
        out.append("\\\"");
        proof {
            reveal_strlit("\\\"");
            assert(out@ =~= old(out)@ + esc_char(c));
        }
    } else if c == '\\' {
        out.append("\\\\");
        proof {
            reveal_strlit("\\\\");
            assert(out@ =~= old(out)@ + esc_char(c));
        }
    } else if c == '\u{8}' {
        out.append("\\b");
        proof {
            reveal_strlit("\\b");
            assert(out@ =~= old(out)@ + esc_char(c));
        }
    } else if c == '\u{c}' {
        out.append("\\f");
        proof {
            reveal_strlit("\\f");
            assert(out@ =~= old(out)@ + esc_char(c));
        }
    } else if c == '\n' {
        out.append("\\n");
        proof {
            reveal_strlit("\\n");
            assert(out@ =~= old(out)@ + esc_char(c));
        }
    } else if c == '\r' {
        out.append("\\r");
        proof {
            reveal_strlit("\\r");
            assert(out@ =~= old(out)@ + esc_char(c));
        }
    } else if c == '\t' {
        out.append("\\t");
        proof {
            reveal_strlit("\\t");
            assert(out@ =~= old(out)@ + esc_char(c));
        }
    } else {
        let v = c as u32;
        if v < 32 {
            out.append("\\u00");
            push_char(out, hex_char(v / 16));
            push_char(out, hex_char(v % 16));
            proof {
                reveal_strlit("\\u00");
                assert(out@ =~= old(out)@ + esc_char(c));
            }
        } else {
            push_char(out, c);
        }
    }
}

proof fn lemma_escaped_push(s: Seq<char>, c: char)
    ensures
        escaped(s.push(c)) == escaped(s) + esc_char(c),
    decreases s.len(),
{
    if s.len() == 0 {
        assert(s.push(c)[0] == c);
        assert(s.push(c).skip(1) =~= Seq::<char>::empty());
        assert(escaped(s.push(c)) == esc_char(c) + escaped(s.push(c).skip(1)));
        assert(escaped(s.push(c).skip(1)) == Seq::<char>::empty());
        assert(esc_char(c) + Seq::<char>::empty() =~= Seq::<char>::empty() + esc_char(c));
        assert(escaped(s) == Seq::<char>::empty());
    } else {
        lemma_escaped_push(s.skip(1), c);
        assert(s.push(c).skip(1) =~= s.skip(1).push(c));
        assert(s.push(c)[0] == s[0]);
        assert(escaped(s.push(c)) == esc_char(s[0]) + escaped(s.skip(1).push(c)));
        assert(esc_char(s[0]) + (escaped(s.skip(1)) + esc_char(c)) =~= (esc_char(s[0]) + escaped(
            s.skip(1),
        )) + esc_char(c));
    }
}

/// Appends the text of `s` as a JSON string literal, quotes included.
pub fn push_quoted(out: &mut String, s: &str)
    ensures
        final(out)@ == old(out)@ + quoted(s@),
{
    push_char(out, '"');
    let n = s.unicode_len();
    let mut i: usize = 0;
    proof {
        assert(s@.take(0) =~= Seq::<char>::empty());
    }
    while i < n
        invariant
            i <= n,
            n == s@.len(),
            out@ == old(out)@ + seq!['"'] + escaped(s@.take(i as int)),
        decreases n - i,
    {
        let c = s.get_char(i);
        push_esc_char(out, c);
        proof {
            lemma_escaped_push(s@.take(i as int), c);
            assert(s@.take(i as int).push(c) =~= s@.take(i as int + 1));
            assert(out@ =~= old(out)@ + seq!['"'] + escaped(s@.take(i as int + 1)));
        }
        i += 1;
    }
    push_char(out, '"');
    proof {
        assert(s@.take(n as int) =~= s@);
        assert(out@ =~= old(out)@ + quoted(s@));
    }
}

/// Appends `n` spaces.
pub fn push_spaces(out: &mut String, n: usize)
    ensures
        final(out)@ == old(out)@ + spaces(n as nat),
{
    let mut i: usize = 0;
    while i < n
        invariant
            i <= n,
            out@ == old(out)@ + spaces(i as nat),
        decreases n - i,
    {
        push_char(out, ' ');
        i += 1;
    }
}

/// Appends a pretty-printed object assembled from rendered members, with the
/// object's own first column at indentation `ind`.
pub fn push_obj(out: &mut String, ms: &Vec<(String, String)>, ind: usize)
    requires
        ind + 2 <= usize::MAX,
    ensures
        final(out)@ == old(out)@ + obj_text(member_views(ms@), ind as nat),
{
    let ghost mv = member_views(ms@);
    if ms.len() == 0 {
        out.append("{}");
        return ;
    }
    out.append("{\n");
    let mut k: usize = 0;
    proof {
        assert(mv.skip(0) =~= mv);
    }
    while k < ms.len()
        invariant
            k <= ms.len(),
            ms.len() > 0,
            mv == member_views(ms@),
            ind + 2 <= usize::MAX,
            out@ + members_text(mv.skip(k as int), ind as nat + 2) == old(out)@ + "{\n"@
                + members_text(mv, ind as nat + 2),
        decreases ms.len() - k,
    {
        let ghost pre = out@;
        push_spaces(out, ind + 2);
        push_quoted(out, ms[k].0.as_str());
        out.append(": ");
        out.append(ms[k].1.as_str());
        if k + 1 == ms.len() {
            out.append("\n");
        } else {
            out.append(",\n");
        }
        proof {
            let rest = mv.skip(k as int);
            assert(rest[0] == (ms@[k as int].0@, ms@[k as int].1@));
            assert(rest.skip(1) =~= mv.skip(k as int + 1));
            if k + 1 == ms.len() {
                assert(out@ =~= pre + (member_line(rest[0], ind as nat + 2) + "\n"@));
                assert(mv.skip(k as int + 1).len() == 0);
            } else {
                assert(out@ =~= pre + (member_line(rest[0], ind as nat + 2) + ",\n"@));
            }
            assert(out@ + members_text(mv.skip(k as int + 1), ind as nat + 2) =~= pre
                + members_text(rest, ind as nat + 2));
        }
        k += 1;
    }
    push_spaces(out, ind);
    push_char(out, '}');
    proof {
        assert(mv.skip(ms@.len() as int) =~= Seq::<Member>::empty());
        assert(out@ =~= old(out)@ + obj_text(mv, ind as nat));
    }
}

/// Appends a pretty-printed array assembled from rendered items, with the
/// array's own first column at indentation `ind`.
pub fn push_arr(out: &mut String, vs: &Vec<String>, ind: usize)
    requires
        ind + 2 <= usize::MAX,
    ensures
        final(out)@ == old(out)@ + arr_text(item_views(vs@), ind as nat),
{
    let ghost iv = item_views(vs@);
    if vs.len() == 0 {
        out.append("[]");
        return ;
    }
    out.append("[\n");
    let mut k: usize = 0;
    proof {
        assert(iv.skip(0) =~= iv);
    }
    while k < vs.len()
        invariant
            k <= vs.len(),
            vs.len() > 0,
            iv == item_views(vs@),
            ind + 2 <= usize::MAX,
            out@ + item_text(iv.skip(k as int), ind as nat + 2) == old(out)@ + "[\n"@ + item_text(
                iv,
                ind as nat + 2,
            ),
        decreases vs.len() - k,
    {
        let ghost pre = out@;
        push_spaces(out, ind + 2);
        out.append(vs[k].as_str());
        if k + 1 == vs.len() {
            out.append("\n");
        } else {
            out.append(",\n");
        }
        proof {
            let rest = iv.skip(k as int);
            assert(rest[0] == vs@[k as int]@);
            assert(rest.skip(1) =~= iv.skip(k as int + 1));
            if k + 1 == vs.len() {
                assert(out@ =~= pre + (spaces(ind as nat + 2) + rest[0] + "\n"@));
                assert(iv.skip(k as int + 1).len() == 0);
            } else {
                assert(out@ =~= pre + (spaces(ind as nat + 2) + rest[0] + ",\n"@));
            }
            assert(out@ + item_text(iv.skip(k as int + 1), ind as nat + 2) =~= pre + item_text(
                rest,
                ind as nat + 2,
            ));
        }
        k += 1;
    }
    push_spaces(out, ind);
    push_char(out, ']');
    proof {
        assert(iv.skip(vs@.len() as int) =~= Seq::<Seq<char>>::empty());
        assert(out@ =~= old(out)@ + arr_text(iv, ind as nat));
    }
}


/// A rendered JSON string literal as a new string.
pub fn quoted_string(s: &str) -> (r: String)
    ensures
        r@ == quoted(s@),
{
    let mut out = String::new();
    push_quoted(&mut out, s);
    proof {
        assert(out@ =~= quoted(s@));
    }
    out
}

/// A rendered JSON boolean.
pub fn bool_string(b: bool) -> (r: String)
    ensures
        r@ == bool_text(b),
{
    if b {
        "true".to_owned()
    } else {
        "false".to_owned()
    }
}

/// A rendered JSON number.
pub fn u64_string(n: u64) -> (r: String)
    ensures
        r@ == crate::fmt::dec_str(n as nat),
{
    let mut out = String::new();
    crate::fmt::push_u64(&mut out, n);
    proof {
        assert(out@ =~= crate::fmt::dec_str(n as nat));
    }
    out
}

/// A JSON array of string literals.
pub open spec fn str_arr_text(names: Seq<Seq<char>>, ind: nat) -> Seq<char> {
    arr_text(Seq::new(names.len(), |i: int| quoted(names[i])), ind)
}

/// Renders a JSON array of string literals.
pub fn str_arr_string(names: &Vec<String>, ind: usize) -> (r: String)
    requires
        ind + 2 <= usize::MAX,
    ensures
        r@ == str_arr_text(crate::scan::str_views(names@), ind as nat),
{
    let ghost target = Seq::new(names@.len(), |i: int| quoted(names@[i]@));
    let mut items: Vec<String> = Vec::new();
    let mut i: usize = 0;
    proof {
        assert(item_views(items@) =~= target.take(0));
    }
    while i < names.len()
        invariant
            i <= names@.len(),
            target == Seq::new(names@.len(), |j: int| quoted(names@[j]@)),
            item_views(items@) == target.take(i as int),
        decreases names@.len() - i,
    {
        let ghost ipre = items@;
        proof {
            assert(item_views(ipre).len() == ipre.len());
            assert(target.take(i as int).len() == i);
        }
        items.push(quoted_string(names[i].as_str()));
        proof {
            assert(item_views(items@) =~= target.take(i as int + 1));
        }
        i += 1;
    }
    proof {
        assert(target.take(names@.len() as int) =~= target);
    }
    let mut out = String::new();
    push_arr(&mut out, &items, ind);
    proof {
        assert(Seq::new(crate::scan::str_views(names@).len(), |i: int| quoted(crate::scan::str_views(names@)[i])) =~= target);
        assert(out@ =~= str_arr_text(crate::scan::str_views(names@), ind as nat));
    }
    out
}

} // verus!
