//! Characters and tokens of a source line.
use vstd::prelude::*;

verus! {

/// Characters with the Unicode White_Space property.
pub open spec fn is_ws(c: char) -> bool {
    let u = c as u32;
    ||| 0x9 <= u <= 0xd
    ||| u == 0x20
    ||| u == 0x85
    ||| u == 0xa0
    ||| u == 0x1680
    ||| 0x2000 <= u <= 0x200a
    ||| u == 0x2028
    ||| u == 0x2029
    ||| u == 0x202f
    ||| u == 0x205f
    ||| u == 0x3000
}

/// The maximal runs of non-whitespace characters of `s`, in order.
pub open spec fn tokens(s: Seq<char>) -> Seq<Seq<char>>
    decreases s.len(),
{
    if s.len() == 0 {
        Seq::empty()
    } else {
        let prev = tokens(s.drop_last());
        let c = s.last();
        if is_ws(c) {
            prev
        } else if s.len() >= 2 && !is_ws(s[s.len() - 2]) {
            prev.drop_last().push(prev.last().push(c))
        } else {
            prev.push(seq![c])
        }
    }
}

pub fn is_space(c: char) -> (r: bool)
    ensures
        r == is_ws(c),
{
    let u = c as u32;
    (0x9 <= u && u <= 0xd) || u == 0x20 || u == 0x85 || u == 0xa0 || u == 0x1680 || (0x2000 <= u
        && u <= 0x200a) || u == 0x2028 || u == 0x2029 || u == 0x202f || u == 0x205f || u == 0x3000
}

/// Whether two strings hold the same characters.
pub fn str_eq(a: &str, b: &str) -> (r: bool)
    ensures
        r == (a@ == b@),
{
    let n = a.unicode_len();
    if n != b.unicode_len() {
        return false;
    }
    let mut i: usize = 0;
    while i < n
        invariant
            n == a@.len(),
            n == b@.len(),
            i <= n,
            a@.take(i as int) == b@.take(i as int),
        decreases n - i,
    {
        if a.get_char(i) != b.get_char(i) {
            assert(a@[i as int] != b@[i as int]);
            return false;
        }
        assert(a@.take(i + 1) =~= a@.take(i as int).push(a@[i as int]));
        assert(b@.take(i + 1) =~= b@.take(i as int).push(b@[i as int]));
        i = i + 1;
    }
    assert(a@ =~= a@.take(n as int));
    assert(b@ =~= b@.take(n as int));
    true
}

/// Splits `line` at whitespace.
pub fn split_tokens(line: &str) -> (r: Vec<String>)
    ensures
        r@.len() == tokens(line@).len(),
        forall|k: int| 0 <= k < r@.len() ==> #[trigger] r@[k]@ == tokens(line@)[k],
{
    let n = line.unicode_len();
    let mut toks: Vec<String> = Vec::new();
    let mut in_tok = false;
    let mut start: usize = 0;
    let mut i: usize = 0;
    while i < n
        invariant
            n == line@.len(),
            i <= n,
            start <= i,
            !in_tok ==> toks@.map_values(|t: String| t@) == tokens(line@.take(i as int)),
            !in_tok ==> (i == 0 || is_ws(line@[i - 1])),
            in_tok ==> start < i,
            in_tok ==> !is_ws(line@[i - 1]),
            in_tok ==> toks@.map_values(|t: String| t@).push(line@.subrange(start as int, i as int))
                == tokens(line@.take(i as int)),
        decreases n - i,
    {
        let c = line.get_char(i);
        let ghost s = line@;
        assert(s.take(i + 1).drop_last() =~= s.take(i as int));
        assert(s.take(i + 1).last() == c);
        if is_space(c) {
            if in_tok {
                let t = String::from_str(line.substring_char(start, i));
                toks.push(t);
                in_tok = false;
            }
        } else {
            let ghost v = toks@.map_values(|t: String| t@);
            if in_tok {
                assert(s.take(i + 1)[i - 1] == s[i - 1]);
                let ghost prev = v.push(s.subrange(start as int, i as int));
                assert(prev.drop_last() =~= v);
                assert(s.subrange(start as int, i + 1) =~= s.subrange(start as int, i as int).push(c));
                assert(tokens(s.take(i + 1)) == prev.drop_last().push(prev.last().push(c)));
            } else {
                if i > 0 {
                    assert(s.take(i + 1)[i - 1] == s[i - 1]);
                }
                assert(s.subrange(i as int, i + 1) =~= seq![c]);
                assert(tokens(s.take(i + 1)) == v.push(seq![c]));
                in_tok = true;
                start = i;
            }
        }
        proof {
            let v = toks@.map_values(|t: String| t@);
            assert(v.len() == toks@.len());
        }
        i = i + 1;
    }
    if in_tok {
        let t = String::from_str(line.substring_char(start, n));
        toks.push(t);
    }
    assert(line@.take(n as int) =~= line@);
    proof {
        let v = toks@.map_values(|t: String| t@);
        assert forall|k: int| 0 <= k < toks@.len() implies #[trigger] toks@[k]@ == tokens(line@)[k] by {
            assert(v[k] == toks@[k]@);
        }
    }
    toks
}

} // verus!
