//! Character-sequence helpers shared by the exporters.
use vstd::prelude::*;
use vstd::string::StringExecFns;

verus! {

/// The decimal digit character for `d`, which is below ten.
pub open spec fn digit_char(d: nat) -> char {
    if d == 0 { '0' }
    else if d == 1 { '1' }
    else if d == 2 { '2' }
    else if d == 3 { '3' }
    else if d == 4 { '4' }
    else if d == 5 { '5' }
    else if d == 6 { '6' }
    else if d == 7 { '7' }
    else if d == 8 { '8' }
    else { '9' }
}

/// The decimal notation of `n`, without sign or leading zeros.
pub open spec fn decimal(n: nat) -> Seq<char>
    decreases n,
{
    if n < 10 {
        seq![digit_char(n)]
    } else {
        decimal(n / 10).push(digit_char(n % 10))
    }
}

/// The number that a string of decimal digits denotes.
pub open spec fn decimal_value(digits: Seq<char>) -> int
    decreases digits.len(),
{
    if digits.len() == 0 {
        0
    } else {
        decimal_value(digits.drop_last()) * 10 + (digits.last() as int - '0' as int)
    }
}

proof fn lemma_digit_value(d: nat)
    requires
        d < 10,
    ensures
        '0' <= digit_char(d) <= '9',
        digit_char(d) as int - '0' as int == d,
        d > 0 ==> digit_char(d) != '0',
{
}

/// The decimal notation of `n` is made of digits only, starts with a digit
/// other than zero unless `n` is zero, and denotes `n`.
pub proof fn law_decimal(n: nat)
    ensures
        decimal(n).len() >= 1,
        forall|i: int| 0 <= i < decimal(n).len() ==> '0' <= #[trigger] decimal(n)[i] <= '9',
        n > 0 ==> decimal(n)[0] != '0',
        decimal_value(decimal(n)) == n,
    decreases n,
{
    if n < 10 {
        lemma_digit_value(n);
        assert(decimal(n).drop_last() =~= Seq::<char>::empty());
        assert(decimal_value(Seq::<char>::empty()) == 0);
        assert(decimal(n).last() == digit_char(n));
        assert(decimal_value(decimal(n)) == 0 * 10 + (digit_char(n) as int - '0' as int));
    } else {
        law_decimal(n / 10);
        lemma_digit_value(n % 10);
        let prefix = decimal(n / 10);
        assert(decimal(n).drop_last() =~= prefix);
        assert forall|i: int| 0 <= i < decimal(n).len() implies '0' <= #[trigger] decimal(n)[i] <= '9' by {
            if i < prefix.len() {
                assert(decimal(n)[i] == prefix[i]);
            }
        }
        assert((n / 10) * 10 + n % 10 == n) by (nonlinear_arith);
        assert(decimal(n).last() == digit_char(n % 10));
        assert(decimal_value(prefix) * 10 == (n / 10) * 10);
        assert(decimal_value(decimal(n)) == decimal_value(prefix) * 10 + (digit_char(n % 10) as int
            - '0' as int));
        assert(decimal(n)[0] == prefix[0]);
    }
}

fn digit_str(d: usize) -> (s: &'static str)
    requires
        d < 10,
    ensures
        s@ == seq![digit_char(d as nat)],
{
    if d == 0 {
        proof { reveal_strlit("0"); }
        "0"
    } else if d == 1 {
        proof { reveal_strlit("1"); }
        "1"
    } else if d == 2 {
        proof { reveal_strlit("2"); }
        "2"
    } else if d == 3 {
        proof { reveal_strlit("3"); }
        "3"
    } else if d == 4 {
        proof { reveal_strlit("4"); }
        "4"
    } else if d == 5 {
        proof { reveal_strlit("5"); }
        "5"
    } else if d == 6 {
        proof { reveal_strlit("6"); }
        "6"
    } else if d == 7 {
        proof { reveal_strlit("7"); }
        "7"
    } else if d == 8 {
        proof { reveal_strlit("8"); }
        "8"
    } else {
        proof { reveal_strlit("9"); }
        "9"
    }
}

/// Renders `n` in decimal notation.
pub fn u64_to_decimal(n: u64) -> (s: String)
    ensures
        s@ == decimal(n as nat),
    decreases n,
{
    if n < 10 {
        String::from_str(digit_str(n as usize))
    } else {
        let mut s = u64_to_decimal(n / 10);
        s.append(digit_str((n % 10) as usize));
        s
    }
}

/// Renders `n` in decimal notation.
pub fn usize_to_decimal(n: usize) -> (s: String)
    ensures
        s@ == decimal(n as nat),
{
    u64_to_decimal(n as u64)
}

/// The decimal notation of `i`, with a minus sign in front when it is negative.
pub open spec fn int_decimal(i: int) -> Seq<char> {
    if i < 0 {
        "-"@ + decimal((-i) as nat)
    } else {
        decimal(i as nat)
    }
}

/// Renders `n` in decimal notation, with a minus sign in front when it is negative.
pub fn i64_to_decimal(n: i64) -> (s: String)
    ensures
        s@ == int_decimal(n as int),
{
    if n < 0 {
        let magnitude: u64 = (0i128 - (n as i128)) as u64;
        let mut s = String::from_str("-");
        let digits = u64_to_decimal(magnitude);
        s.append(digits.as_str());
        s
    } else {
        u64_to_decimal(n as u64)
    }
}

/// The part of `s` after its last `/`; all of `s` where it holds none.
pub open spec fn last_segment(s: Seq<char>) -> Seq<char>
    decreases s.len(),
{
    if s.len() == 0 {
        s
    } else if s.last() == '/' {
        Seq::empty()
    } else {
        last_segment(s.drop_last()).push(s.last())
    }
}

/// The part after the last `/` holds no `/` and ends `s`; where `s` holds no
/// `/`, it is all of `s`.
#[verifier::spinoff_prover]
pub proof fn law_last_segment(s: Seq<char>)
    ensures
        !last_segment(s).contains('/'),
        last_segment(s).len() <= s.len(),
        last_segment(s) =~= s.subrange(s.len() - last_segment(s).len(), s.len() as int),
        !s.contains('/') ==> last_segment(s) == s,
    decreases s.len(),
{
    if s.len() > 0 {
        let prefix = s.drop_last();
        law_last_segment(prefix);
        if s.last() != '/' {
            let seg = last_segment(prefix);
            assert(!seg.push(s.last()).contains('/')) by {
                if seg.push(s.last()).contains('/') {
                    let k = choose|k: int| 0 <= k < seg.push(s.last()).len() && seg.push(s.last())[k] == '/';
                    if k < seg.len() {
                        assert(seg.contains('/'));
                    }
                }
            }
            if !s.contains('/') {
                assert forall|k: int| 0 <= k < prefix.len() implies prefix[k] != '/' by {
                    assert(s[k] == prefix[k]);
                }
                assert(prefix.push(s.last()) =~= s);
            }
        } else {
            assert(s[s.len() - 1] == '/');
        }
    }
}

/// Whether `needle` stands in `hay` from position `i` on.
pub open spec fn occurs_at(hay: Seq<char>, needle: Seq<char>, i: int) -> bool {
    0 <= i && i + needle.len() <= hay.len() && hay.subrange(i, i + needle.len()) == needle
}

/// Whether `needle` stands somewhere in `hay`.
pub open spec fn occurs(hay: Seq<char>, needle: Seq<char>) -> bool {
    exists|i: int| occurs_at(hay, needle, i)
}

/// Whether `hay` starts with `prefix`.
pub open spec fn starts_with(hay: Seq<char>, prefix: Seq<char>) -> bool {
    prefix.len() <= hay.len() && hay.subrange(0, prefix.len() as int) == prefix
}

/// Whether `hay` ends with `suffix`.
pub open spec fn ends_with(hay: Seq<char>, suffix: Seq<char>) -> bool {
    suffix.len() <= hay.len() && hay.subrange(hay.len() - suffix.len(), hay.len() as int) == suffix
}

/// A text ends with what was appended last.
pub proof fn lemma_ends_with_appended(front: Seq<char>, suffix: Seq<char>)
    ensures
        ends_with(front + suffix, suffix),
{
    assert((front + suffix).subrange(front.len() as int, (front + suffix).len() as int) =~= suffix);
}

/// A text ends with the last three pieces appended to it.
pub proof fn lemma_ends_with_three(front: Seq<char>, a: Seq<char>, b: Seq<char>, c: Seq<char>)
    ensures
        ends_with(front + a + b + c, a + b + c),
{
    assert(front + a + b + c =~= front + (a + b + c));
    lemma_ends_with_appended(front, a + b + c);
}

/// A piece stands in any text it was put into.
pub proof fn lemma_occurs_in_middle(front: Seq<char>, piece: Seq<char>, back: Seq<char>)
    ensures
        occurs(front + piece + back, piece),
        occurs(front + piece, piece),
        occurs(piece + back, piece),
{
    assert((front + piece + back).subrange(front.len() as int, (front.len() + piece.len()) as int)
        =~= piece);
    assert(occurs_at(front + piece + back, piece, front.len() as int));
    assert((front + piece).subrange(front.len() as int, (front.len() + piece.len()) as int) =~= piece);
    assert(occurs_at(front + piece, piece, front.len() as int));
    assert((piece + back).subrange(0, piece.len() as int) =~= piece);
    assert(occurs_at(piece + back, piece, 0));
}

/// What stands in a text stands in any text that extends it.
pub proof fn lemma_occurs_in_front(a: Seq<char>, b: Seq<char>, needle: Seq<char>)
    requires
        occurs(a, needle),
    ensures
        occurs(a + b, needle),
{
    let i = choose|i: int| occurs_at(a, needle, i);
    assert((a + b).subrange(i, i + needle.len()) =~= a.subrange(i, i + needle.len()));
    assert(occurs_at(a + b, needle, i));
}

/// What stands in a text stands in any text that ends with it.
pub proof fn lemma_occurs_behind(a: Seq<char>, b: Seq<char>, needle: Seq<char>)
    requires
        occurs(b, needle),
    ensures
        occurs(a + b, needle),
{
    let i = choose|i: int| occurs_at(b, needle, i);
    assert((a + b).subrange(a.len() + i, a.len() + i + needle.len()) =~= b.subrange(i, i + needle.len()));
    assert(occurs_at(a + b, needle, a.len() + i));
}

/// A text holds what it ends with.
pub proof fn lemma_ends_with_occurs(hay: Seq<char>, suffix: Seq<char>)
    requires
        ends_with(hay, suffix),
    ensures
        occurs(hay, suffix),
{
    assert(occurs_at(hay, suffix, hay.len() - suffix.len()));
}

/// What stands in a part of a text stands in the text.
pub proof fn lemma_occurs_transitive(hay: Seq<char>, part: Seq<char>, needle: Seq<char>)
    requires
        occurs(hay, part),
        occurs(part, needle),
    ensures
        occurs(hay, needle),
{
    let i = choose|i: int| occurs_at(hay, part, i);
    let j = choose|j: int| occurs_at(part, needle, j);
    assert(hay.subrange(i + j, i + j + needle.len()) =~= part.subrange(j, j + needle.len()));
    assert(occurs_at(hay, needle, i + j));
}

/// A join holds each of the items it joins.
pub proof fn law_join_holds_items(list: Seq<Seq<char>>, sep: Seq<char>)
    ensures
        forall|i: int| 0 <= i < list.len() ==> #[trigger] occurs(join(list, sep), list[i]),
    decreases list.len(),
{
    if list.len() == 1 {
        assert(occurs_at(join(list, sep), list[0], 0)) by {
            assert(join(list, sep).subrange(0, list[0].len() as int) =~= list[0]);
        }
    } else if list.len() > 1 {
        let shorter = list.drop_last();
        law_join_holds_items(shorter, sep);
        assert forall|i: int| 0 <= i < list.len() implies #[trigger] occurs(join(list, sep), list[i]) by {
            if i < list.len() - 1 {
                assert(list[i] == shorter[i]);
                assert(occurs(join(shorter, sep), shorter[i]));
                lemma_occurs_in_front(join(shorter, sep), sep, list[i]);
                lemma_occurs_in_front(join(shorter, sep) + sep, list.last(), list[i]);
            } else {
                lemma_occurs_in_middle(join(shorter, sep) + sep, list.last(), Seq::empty());
            }
        }
    }
}

/// The text of a result whose error is a static message.
pub open spec fn text_result(r: Result<String, &'static str>) -> Result<Seq<char>, Seq<char>> {
    match r {
        Ok(s) => Ok(s@),
        Err(e) => Err(e@),
    }
}

/// The items of `list` with `sep` between each two neighbours.
pub open spec fn join(list: Seq<Seq<char>>, sep: Seq<char>) -> Seq<char>
    decreases list.len(),
{
    if list.len() == 0 {
        Seq::empty()
    } else if list.len() == 1 {
        list[0]
    } else {
        join(list.drop_last(), sep) + sep + list.last()
    }
}

/// Joins the strings of `list`, with `sep` between each two neighbours.
pub fn join_strings(list: &Vec<String>, sep: &str) -> (res: String)
    ensures
        res@ == join(list@.map_values(|v: String| v@), sep@),
{
    let mut res = String::new();
    let ghost views = list@.map_values(|v: String| v@);
    let mut i: usize = 0;
    while i < list.len()
        invariant
            i <= list.len(),
            views == list@.map_values(|v: String| v@),
            res@ == join(views.take(i as int), sep@),
        decreases list.len() - i,
    {
        if i != 0 {
            res.append(sep);
        }
        res.append(list[i].as_str());
        assert(views.take(i + 1).drop_last() =~= views.take(i as int));
        i = i + 1;
    }
    assert(views.take(list.len() as int) =~= views);
    res
}

} // verus!
