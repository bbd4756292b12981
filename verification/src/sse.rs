//! Server-sent-event framing: event boundaries and the `data:` payload of an event.
use vstd::prelude::*;
use crate::text::{is_prefix, push_chars};

verus! {

/// Index just past the first blank line (`"\n\n"`) in `b` that starts at or after `i`.
pub open spec fn boundary_from(b: Seq<u8>, i: int) -> Option<int>
    decreases b.len() - i,
{
    if i < 0 || i + 1 >= b.len() {
        None
    } else if b[i] == 10u8 && b[i + 1] == 10u8 {
        Some(i + 2)
    } else {
        boundary_from(b, i + 1)
    }
}

/// Index just past the first blank line (`"\n\n"`) in `b`, if there is one.
pub open spec fn first_boundary(b: Seq<u8>) -> Option<int> {
    boundary_from(b, 0)
}

pub proof fn lemma_boundary_bounds(b: Seq<u8>, i: int)
    requires
        0 <= i,
    ensures
        boundary_from(b, i) matches Some(e) ==> i + 2 <= e <= b.len(),
    decreases b.len() - i,
{
    if i + 1 < b.len() && !(b[i] == 10u8 && b[i + 1] == 10u8) {
        lemma_boundary_bounds(b, i + 1);
    }
}

/// A blank line found in `b` is found at the same place in any extension of `b`.
pub proof fn lemma_boundary_extend(b: Seq<u8>, c: Seq<u8>, i: int)
    requires
        0 <= i,
        boundary_from(b, i) is Some,
    ensures
        boundary_from(b + c, i) == boundary_from(b, i),
    decreases b.len() - i,
{
    let bc = b + c;
    assert(bc[i] == b[i] && bc[i + 1] == b[i + 1]);
    if !(b[i] == 10u8 && b[i + 1] == 10u8) {
        lemma_boundary_extend(b, c, i + 1);
    }
}

/// The lines of `s`: the pieces between its `'\n'` characters.
pub open spec fn split_lines(s: Seq<char>) -> Seq<Seq<char>>
    decreases s.len(),
{
    if s.len() == 0 {
        seq![Seq::empty()]
    } else {
        let ls = split_lines(s.drop_last());
        if s.last() == '\n' {
            ls.push(Seq::empty())
        } else {
            ls.update(ls.len() - 1, ls.last().push(s.last()))
        }
    }
}

/// `l` without its trailing `'\r'` characters.
pub open spec fn strip_cr(l: Seq<char>) -> Seq<char>
    decreases l.len(),
{
    if l.len() > 0 && l.last() == '\r' {
        strip_cr(l.drop_last())
    } else {
        l
    }
}

/// `"data:"`.
pub open spec fn data_tag() -> Seq<char> {
    seq!['d', 'a', 't', 'a', ':']
}

/// The payload of a `data:` line (one space after the colon is dropped);
/// `None` for any other line.
pub open spec fn line_payload(l: Seq<char>) -> Option<Seq<char>> {
    let t = strip_cr(l);
    if is_prefix(data_tag(), t) {
        let rest = t.skip(5);
        Some(if rest.len() > 0 && rest[0] == ' ' { rest.skip(1) } else { rest })
    } else {
        None
    }
}

/// Adds a payload line to the payload gathered so far, with a `'\n'` between
/// them when something was gathered.
pub open spec fn join_data(acc: Seq<char>, p: Seq<char>) -> Seq<char> {
    if acc.len() == 0 { p } else { acc.push('\n') + p }
}

/// The payload of a list of lines.
pub open spec fn lines_data(ls: Seq<Seq<char>>) -> Seq<char>
    decreases ls.len(),
{
    if ls.len() == 0 {
        Seq::empty()
    } else {
        let acc = lines_data(ls.drop_last());
        match line_payload(ls.last()) {
            Some(p) => join_data(acc, p),
            None => acc,
        }
    }
}

/// The payload of an event: its `data:` lines, joined by `'\n'`.
pub open spec fn event_data(s: Seq<char>) -> Seq<char> {
    lines_data(split_lines(s))
}

/// `"[DONE]"`, the payload that ends an OpenAI-style stream.
pub open spec fn done_marker() -> Seq<char> {
    seq!['[', 'D', 'O', 'N', 'E', ']']
}

/// Index just past the first blank line in `buf`.
pub fn find_event_boundary(buf: &[u8]) -> (r: Option<usize>)
    ensures
        r is Some <==> first_boundary(buf@) is Some,
        r matches Some(e) ==> e == first_boundary(buf@)->0,
{
    let mut i: usize = 0;
    while i < buf.len() && i + 1 < buf.len()
        invariant
            boundary_from(buf@, i as int) == boundary_from(buf@, 0),
        decreases buf.len() - i,
    {
        if buf[i] == 10u8 && buf[i + 1] == 10u8 {
            return Some(i + 2);
        }
        i += 1;
    }
    None
}

/// The range of the payload of the line `cs[a..b]`, if it is a `data:` line.
fn payload_range(cs: &[char], a: usize, b: usize) -> (r: Option<(usize, usize)>)
    requires
        a <= b <= cs@.len(),
    ensures
        r is Some <==> line_payload(cs@.subrange(a as int, b as int)) is Some,
        r matches Some(p) ==> a <= p.0 <= p.1 <= b
            && line_payload(cs@.subrange(a as int, b as int))->0 == cs@.subrange(p.0 as int, p.1 as int),
{
    let ghost l = cs@.subrange(a as int, b as int);
    let mut e = b;
    while e > a && cs[e - 1] == '\r'
        invariant
            a <= e <= b <= cs@.len(),
            strip_cr(l) == strip_cr(cs@.subrange(a as int, e as int)),
        decreases e,
    {
        assert(cs@.subrange(a as int, e as int).drop_last() =~= cs@.subrange(a as int, e - 1));
        e -= 1;
    }
    let ghost t = cs@.subrange(a as int, e as int);
    assert(strip_cr(t) == t);
    assert(strip_cr(l) == t);
    if e - a < 5 {
        return None;
    }
    if !(cs[a] == 'd' && cs[a + 1] == 'a' && cs[a + 2] == 't' && cs[a + 3] == 'a' && cs[a + 4] == ':') {
        assert(!(t.take(5) =~= data_tag())) by {
            if t.take(5) =~= data_tag() {
                assert(t.take(5)[0] == 'd' && t.take(5)[1] == 'a' && t.take(5)[2] == 't'
                    && t.take(5)[3] == 'a' && t.take(5)[4] == ':');
            }
        }
        return None;
    }
    assert(t.take(5) =~= data_tag());
    let mut s = a + 5;
    assert(t.skip(5) =~= cs@.subrange(a + 5, e as int));
    if s < e && cs[s] == ' ' {
        assert(t.skip(5).skip(1) =~= cs@.subrange(a + 6, e as int));
        s += 1;
    }
    Some((s, e))
}

proof fn lemma_split_lines_push(s: Seq<char>, c: char)
    ensures
        split_lines(s).len() > 0,
        c == '\n' ==> split_lines(s.push(c)) == split_lines(s).push(Seq::empty()),
        c != '\n' ==> split_lines(s.push(c)) == split_lines(s).update(
            split_lines(s).len() - 1,
            split_lines(s).last().push(c),
        ),
    decreases s.len(),
{
    assert(s.push(c).drop_last() =~= s);
    if s.len() > 0 {
        lemma_split_lines_push(s.drop_last(), s.last());
        assert(s.drop_last().push(s.last()) =~= s);
    }
}

/// The payload of the event `cs[from..to]`.
pub fn event_data_of(cs: &[char], from: usize, to: usize) -> (r: String)
    requires
        from <= to <= cs@.len(),
    ensures
        r@ == event_data(cs@.subrange(from as int, to as int)),
{
    let mut data = String::new();
    let mut line_start = from;
    let mut i = from;
    proof {
        assert(cs@.subrange(from as int, from as int) =~= Seq::<char>::empty());
        assert(split_lines(Seq::<char>::empty()).drop_last() =~= Seq::<Seq<char>>::empty());
    }
    while i < to
        invariant
            from <= line_start <= i <= to <= cs@.len(),
            split_lines(cs@.subrange(from as int, i as int)).len() > 0,
            split_lines(cs@.subrange(from as int, i as int)).last() == cs@.subrange(line_start as int, i as int),
            data@ == lines_data(split_lines(cs@.subrange(from as int, i as int)).drop_last()),
        decreases to - i,
    {
        let ghost pre = cs@.subrange(from as int, i as int);
        proof {
            lemma_split_lines_push(pre, cs@[i as int]);
            assert(cs@.subrange(from as int, i + 1) =~= pre.push(cs@[i as int]));
        }
        if cs[i] == '\n' {
            let ghost ls = split_lines(pre);
            proof {
                assert(ls.push(Seq::<char>::empty()).drop_last() =~= ls);
                assert(ls.drop_last().push(ls.last()) =~= ls);
            }
            match payload_range(cs, line_start, i) {
                Some((ps, pe)) => {
                    if !data.as_str().is_empty() {
                        crate::text::push_char(&mut data, '\n');
                    }
                    push_chars(&mut data, cs, ps, pe);
                },
                None => {},
            }
            line_start = i + 1;
            proof {
                assert(cs@.subrange(line_start as int, i + 1) =~= Seq::<char>::empty());
            }
        } else {
            proof {
                let ls = split_lines(pre);
                assert(ls.update(ls.len() - 1, ls.last().push(cs@[i as int])).drop_last() =~= ls.drop_last());
                assert(cs@.subrange(line_start as int, i + 1) =~= cs@.subrange(line_start as int, i as int).push(cs@[i as int]));
            }
        }
        i += 1;
    }
    let ghost ls = split_lines(cs@.subrange(from as int, to as int));
    proof {
        assert(ls.drop_last().push(ls.last()) =~= ls);
    }
    match payload_range(cs, line_start, to) {
        Some((ps, pe)) => {
            if !data.as_str().is_empty() {
                crate::text::push_char(&mut data, '\n');
            }
            push_chars(&mut data, cs, ps, pe);
        },
        None => {},
    }
    data
}

} // verus!
