//! Text building blocks: decimal and hexadecimal rendering, splitting on a
//! separator and joining with one, each stated over `Seq<char>`.

use vstd::prelude::*;

verus! {

/// The ASCII digit for `d`, which is below ten.
pub open spec fn digit_char(d: nat) -> char {
    seq!['0', '1', '2', '3', '4', '5', '6', '7', '8', '9'][d as int]
}

/// The decimal notation of `n`, without leading zeros.
pub open spec fn decimal(n: nat) -> Seq<char>
    decreases n,
{
    if n < 10 {
        seq![digit_char(n)]
    } else {
        decimal(n / 10).push(digit_char(n % 10))
    }
}

/// Decimal notations are never empty.
pub proof fn lemma_decimal_nonempty(n: nat)
    ensures
        decimal(n).len() >= 1,
    decreases n,
{
    if n >= 10 {
        lemma_decimal_nonempty(n / 10);
    }
}

/// Different numbers have different decimal notations.
pub proof fn lemma_decimal_injective(a: nat, b: nat)
    requires
        decimal(a) == decimal(b),
    ensures
        a == b,
    decreases a,
{
    let digits = seq!['0', '1', '2', '3', '4', '5', '6', '7', '8', '9'];
    assert(decimal(a).last() == digit_char(a % 10));
    assert(decimal(b).last() == digit_char(b % 10));
    assert(digit_char(a % 10) == digits[(a % 10) as int]);
    assert(digit_char(b % 10) == digits[(b % 10) as int]);
    assert(a % 10 == b % 10);
    if a < 10 && b >= 10 {
        lemma_decimal_nonempty(b / 10);
    } else if a >= 10 && b < 10 {
        lemma_decimal_nonempty(a / 10);
    } else if a >= 10 && b >= 10 {
        assert(decimal(a / 10) =~= decimal(a).drop_last());
        assert(decimal(b / 10) =~= decimal(b).drop_last());
        lemma_decimal_injective(a / 10, b / 10);
    }
}

/// The number that a string of decimal digits denotes, most significant
/// digit first.
pub open spec fn digits_value(s: Seq<char>) -> int
    decreases s.len(),
{
    if s.len() == 0 {
        0
    } else {
        digits_value(s.drop_last()) * 10 + (s.last() as int - 48)
    }
}

/// Every character of `s` is one of `0` to `9`.
pub open spec fn all_digits(s: Seq<char>) -> bool {
    forall|i: int| 0 <= i < s.len() ==> 48 <= #[trigger] s[i] as int <= 57
}

proof fn lemma_digit_char(d: nat)
    requires
        d < 10,
    ensures
        digit_char(d) as int == 48 + d,
{
    let digits = seq!['0', '1', '2', '3', '4', '5', '6', '7', '8', '9'];
    assert(digit_char(d) == digits[d as int]);
    if d == 0 { assert(digits[0] == '0'); }
    else if d == 1 { assert(digits[1] == '1'); }
    else if d == 2 { assert(digits[2] == '2'); }
    else if d == 3 { assert(digits[3] == '3'); }
    else if d == 4 { assert(digits[4] == '4'); }
    else if d == 5 { assert(digits[5] == '5'); }
    else if d == 6 { assert(digits[6] == '6'); }
    else if d == 7 { assert(digits[7] == '7'); }
    else if d == 8 { assert(digits[8] == '8'); }
    else { assert(digits[9] == '9'); }
}

/// The decimal notation of `n` consists of digits only and reads back as
/// `n`.
pub proof fn lemma_decimal_reads_back(n: nat)
    ensures
        all_digits(decimal(n)),
        digits_value(decimal(n)) == n,
    decreases n,
{
    if n < 10 {
        lemma_digit_char(n);
        assert(decimal(n).drop_last() =~= Seq::<char>::empty());
        assert(decimal(n).last() == digit_char(n));
        assert(digits_value(decimal(n)) == digits_value(Seq::<char>::empty()) * 10 + (digit_char(n) as int - 48));
    } else {
        lemma_decimal_reads_back(n / 10);
        lemma_digit_char(n % 10);
        let d = decimal(n);
        assert(d.drop_last() =~= decimal(n / 10));
        assert(d.last() == digit_char(n % 10));
        assert(digits_value(d) == digits_value(decimal(n / 10)) * 10 + (digit_char(n % 10) as int - 48));
        assert((n / 10) * 10 + n % 10 == n);
        assert forall|i: int| 0 <= i < d.len() implies 48 <= #[trigger] d[i] as int <= 57 by {
            if i < d.len() - 1 {
                assert(d[i] == decimal(n / 10)[i]);
            }
        }
    }
}

/// Splitting a concatenation: the pieces of the first part, with its last
/// piece joined to the first piece of the second part, then the remaining
/// pieces of the second part.
pub proof fn lemma_split_concat(x: Seq<char>, y: Seq<char>, sep: char)
    ensures
        split_spec(x + y, sep) == split_spec(x, sep).drop_last() + seq![
            split_spec(x, sep).last() + split_spec(y, sep)[0],
        ] + split_spec(y, sep).drop_first(),
    decreases y.len(),
{
    lemma_split_nonempty(x, sep);
    lemma_split_nonempty(y, sep);
    let sx = split_spec(x, sep);
    if y.len() == 0 {
        assert(x + y =~= x);
        assert(split_spec(y, sep) =~= seq![Seq::<char>::empty()]);
        assert(sx.last() + Seq::<char>::empty() =~= sx.last());
        assert(sx.drop_last() + seq![sx.last() + split_spec(y, sep)[0]] + split_spec(y, sep).drop_first() =~= sx);
    } else {
        let y0 = y.drop_last();
        let c = y.last();
        lemma_split_concat(x, y0, sep);
        lemma_split_nonempty(y0, sep);
        assert((x + y).drop_last() =~= x + y0);
        assert((x + y).last() == c);
        let t0 = split_spec(y0, sep);
        let r0 = sx.drop_last() + seq![sx.last() + t0[0]] + t0.drop_first();
        assert(split_spec(x + y0, sep) == r0);
        if c == sep {
            let t = t0.push(Seq::<char>::empty());
            assert(split_spec(y, sep) == t);
            assert(t[0] == t0[0]);
            assert(t.drop_first() =~= t0.drop_first().push(Seq::<char>::empty()));
            assert(r0.push(Seq::<char>::empty()) =~= sx.drop_last() + seq![sx.last() + t[0]] + t.drop_first());
        } else {
            let t = t0.update(t0.len() - 1, t0.last().push(c));
            assert(split_spec(y, sep) == t);
            if t0.len() == 1 {
                assert(t[0] == t0[0].push(c));
                assert(t.drop_first() =~= Seq::<Seq<char>>::empty());
                assert(t0.drop_first() =~= Seq::<Seq<char>>::empty());
                assert(r0.last() == sx.last() + t0[0]);
                assert((sx.last() + t0[0]).push(c) =~= sx.last() + t0[0].push(c));
                assert(r0.update(r0.len() - 1, r0.last().push(c)) =~= sx.drop_last() + seq![sx.last() + t[0]]
                    + t.drop_first());
            } else {
                assert(t[0] == t0[0]);
                assert(t.drop_first() =~= t0.drop_first().update(t0.len() - 2, t0.last().push(c)));
                assert(r0.update(r0.len() - 1, r0.last().push(c)) =~= sx.drop_last() + seq![sx.last() + t[0]]
                    + t.drop_first());
            }
        }
    }
}

/// The decimal notation of `i`, with a leading `-` when it is negative.
pub open spec fn signed_decimal(i: int) -> Seq<char> {
    if i < 0 {
        seq!['-'] + decimal((-i) as nat)
    } else {
        decimal(i as nat)
    }
}

/// The signed decimal notation of `i` is a `-` exactly when `i` is
/// negative, followed by digits that read back as the magnitude of `i`.
pub proof fn lemma_signed_decimal_reads_back(i: int)
    ensures
        signed_decimal(i).len() >= 1,
        (signed_decimal(i)[0] == '-') == (i < 0),
        i < 0 ==> all_digits(signed_decimal(i).drop_first()) && digits_value(signed_decimal(i).drop_first()) == -i,
        i >= 0 ==> all_digits(signed_decimal(i)) && digits_value(signed_decimal(i)) == i,
{
    if i < 0 {
        lemma_decimal_reads_back((-i) as nat);
        lemma_decimal_nonempty((-i) as nat);
        assert(signed_decimal(i).drop_first() =~= decimal((-i) as nat));
    } else {
        lemma_decimal_reads_back(i as nat);
        lemma_decimal_nonempty(i as nat);
        let d = decimal(i as nat);
        assert(48 <= d[0] as int <= 57);
    }
}

/// `String::push`: appends one character.
#[verifier::external_body]
pub(crate) fn push_char(s: &mut String, c: char)
    ensures
        final(s)@ == old(s)@.push(c),
{
    s.push(c);
}

fn digit_of(d: u64) -> (c: char)
    requires
        d < 10,
    ensures
        c == digit_char(d as nat),
{
    if d == 0 { '0' } else if d == 1 { '1' } else if d == 2 { '2' } else if d == 3 { '3' }
    else if d == 4 { '4' } else if d == 5 { '5' } else if d == 6 { '6' } else if d == 7 { '7' }
    else if d == 8 { '8' } else { '9' }
}

/// Appends the decimal notation of `n` to `out`.
pub fn push_decimal(out: &mut String, n: u64)
    ensures
        final(out)@ == old(out)@ + decimal(n as nat),
    decreases n,
{
    if n < 10 {
        push_char(out, digit_of(n));
    } else {
        push_decimal(out, n / 10);
        push_char(out, digit_of(n % 10));
    }
}

/// Appends the decimal notation of `i`, signed, to `out`.
pub fn push_signed_decimal(out: &mut String, i: i32)
    ensures
        final(out)@ == old(out)@ + signed_decimal(i as int),
{
    if i < 0 {
        push_char(out, '-');
        let magnitude: i64 = -(i as i64);
        push_decimal(out, magnitude as u64);
        assert(final(out)@ =~= old(out)@ + signed_decimal(i as int));
    } else {
        push_decimal(out, i as u64);
    }
}

/// The decimal notation of `n`, as `n.to_string()` writes it.
pub fn decimal_string(n: u64) -> (s: String)
    ensures
        s@ == decimal(n as nat),
{
    let mut s = String::new();
    push_decimal(&mut s, n);
    s
}


/// The pieces that `str::split` with the character pattern `sep` yields
/// for `s`: the text between consecutive separators, empty pieces included.
pub open spec fn split_spec(s: Seq<char>, sep: char) -> Seq<Seq<char>>
    decreases s.len(),
{
    if s.len() == 0 {
        seq![Seq::<char>::empty()]
    } else {
        let init = split_spec(s.drop_last(), sep);
        if s.last() == sep {
            init.push(Seq::<char>::empty())
        } else {
            init.update(init.len() - 1, init.last().push(s.last()))
        }
    }
}

/// The parts laid end to end with `sep` between neighbours, as `join` on a
/// slice of strings writes them.
pub open spec fn join_spec(parts: Seq<Seq<char>>, sep: Seq<char>) -> Seq<char>
    decreases parts.len(),
{
    if parts.len() == 0 {
        Seq::<char>::empty()
    } else if parts.len() == 1 {
        parts[0]
    } else {
        join_spec(parts.drop_last(), sep) + sep + parts.last()
    }
}

/// The views of a sequence of strings.
pub open spec fn string_views(v: Seq<String>) -> Seq<Seq<char>> {
    v.map_values(|s: String| s@)
}

/// The views of a sequence of string slices.
pub open spec fn str_views(v: Seq<&str>) -> Seq<Seq<char>> {
    v.map_values(|s: &str| s@)
}

/// Joining nothing gives the empty text, and joining one part gives that
/// part.
pub proof fn lemma_join_small(part: Seq<char>, sep: Seq<char>)
    ensures
        join_spec(Seq::empty(), sep) == Seq::<char>::empty(),
        join_spec(seq![part], sep) == part,
{
}

/// Joining one more part appends the separator and the part.
pub proof fn lemma_join_push(parts: Seq<Seq<char>>, part: Seq<char>, sep: Seq<char>)
    requires
        parts.len() >= 1,
    ensures
        join_spec(parts.push(part), sep) == join_spec(parts, sep) + sep + part,
{
    assert(parts.push(part).drop_last() =~= parts);
}

/// Splitting never yields an empty list of pieces.
pub proof fn lemma_split_nonempty(s: Seq<char>, sep: char)
    ensures
        split_spec(s, sep).len() >= 1,
    decreases s.len(),
{
    if s.len() > 0 {
        lemma_split_nonempty(s.drop_last(), sep);
    }
}

proof fn lemma_join_extend_last(parts: Seq<Seq<char>>, sep: Seq<char>, c: char)
    requires
        parts.len() >= 1,
    ensures
        join_spec(parts.update(parts.len() - 1, parts.last().push(c)), sep)
            == join_spec(parts, sep).push(c),
{
    let q = parts.update(parts.len() - 1, parts.last().push(c));
    if parts.len() > 1 {
        assert(q.drop_last() =~= parts.drop_last());
    }
}

/// No piece that splitting yields holds the separator.
pub proof fn lemma_split_pieces_lack_separator(s: Seq<char>, sep: char)
    ensures
        forall|i: int| 0 <= i < split_spec(s, sep).len() ==> !#[trigger] split_spec(s, sep)[i].contains(sep),
    decreases s.len(),
{
    if s.len() > 0 {
        lemma_split_nonempty(s.drop_last(), sep);
        lemma_split_pieces_lack_separator(s.drop_last(), sep);
        let init = split_spec(s.drop_last(), sep);
        if s.last() != sep {
            let last = init.last().push(s.last());
            assert forall|j: int| 0 <= j < last.len() implies last[j] != sep by {
                if j < init.last().len() {
                    assert(init.last()[j] == last[j]);
                    assert(!init[init.len() - 1].contains(sep));
                }
            }
        }
    }
}

/// Joining the pieces of a split with the separator gives back the text.
pub proof fn lemma_join_split(s: Seq<char>, sep: char)
    ensures
        join_spec(split_spec(s, sep), seq![sep]) == s,
    decreases s.len(),
{
    if s.len() > 0 {
        lemma_join_split(s.drop_last(), sep);
        lemma_split_nonempty(s.drop_last(), sep);
        let init = split_spec(s.drop_last(), sep);
        if s.last() == sep {
            let p = init.push(Seq::<char>::empty());
            assert(p.drop_last() =~= init);
            assert(s =~= s.drop_last() + seq![sep] + Seq::<char>::empty());
        } else {
            lemma_join_extend_last(init, seq![sep], s.last());
            assert(s =~= s.drop_last().push(s.last()));
        }
    }
}

proof fn lemma_split_append_plain(a: Seq<char>, b: Seq<char>, sep: char)
    requires
        !b.contains(sep),
    ensures
        split_spec(a + b, sep) == split_spec(a, sep).update(
            split_spec(a, sep).len() - 1,
            split_spec(a, sep).last() + b,
        ),
    decreases b.len(),
{
    lemma_split_nonempty(a, sep);
    if b.len() == 0 {
        assert(a + b =~= a);
        let sa = split_spec(a, sep);
        assert(sa.last() + b =~= sa.last());
        assert(sa.update(sa.len() - 1, sa.last()) =~= sa);
    } else {
        let b0 = b.drop_last();
        assert(!b0.contains(sep)) by {
            assert forall|j: int| 0 <= j < b0.len() implies b0[j] != sep by {
                assert(b0[j] == b[j]);
            }
        }
        lemma_split_append_plain(a, b0, sep);
        assert((a + b).drop_last() =~= a + b0);
        assert((a + b).last() == b.last());
        assert(b.last() != sep) by {
            assert(b[b.len() - 1] == b.last());
        }
        let sa = split_spec(a, sep);
        assert((sa.last() + b0).push(b.last()) =~= sa.last() + b);
        let mid = sa.update(sa.len() - 1, sa.last() + b0);
        assert(mid.update(mid.len() - 1, mid.last().push(b.last()))
            =~= sa.update(sa.len() - 1, sa.last() + b));
    }
}

/// Splitting on a separator that no part holds gives back the parts that
/// were joined with it.
pub proof fn lemma_split_join(parts: Seq<Seq<char>>, sep: char)
    requires
        parts.len() >= 1,
        forall|i: int| 0 <= i < parts.len() ==> !#[trigger] parts[i].contains(sep),
    ensures
        split_spec(join_spec(parts, seq![sep]), sep) == parts,
    decreases parts.len(),
{
    if parts.len() == 1 {
        assert(!parts[0].contains(sep));
        lemma_split_append_plain(Seq::<char>::empty(), parts[0], sep);
        assert(Seq::<char>::empty() + parts[0] =~= parts[0]);
        let e = split_spec(Seq::<char>::empty(), sep);
        assert(e.update(0, e.last() + parts[0]) =~= parts);
    } else {
        let init = parts.drop_last();
        assert forall|i: int| 0 <= i < init.len() implies !#[trigger] init[i].contains(sep) by {
            assert(init[i] == parts[i]);
        }
        lemma_split_join(init, sep);
        let j0 = join_spec(init, seq![sep]);
        let with_sep = j0 + seq![sep];
        assert(with_sep.drop_last() =~= j0);
        assert(split_spec(with_sep, sep) == init.push(Seq::<char>::empty()));
        assert(!parts.last().contains(sep)) by {
            assert(parts[parts.len() - 1] == parts.last());
        }
        lemma_split_append_plain(with_sep, parts.last(), sep);
        let sw = init.push(Seq::<char>::empty());
        assert(Seq::<char>::empty() + parts.last() =~= parts.last());
        assert(sw.update(sw.len() - 1, sw.last() + parts.last()) =~= parts);
    }
}


/// The pieces of `s` between occurrences of `sep`, as
/// `s.split(sep)` yields them.
pub fn split_on(s: &str, sep: char) -> (pieces: Vec<String>)
    ensures
        string_views(pieces@) == split_spec(s@, sep),
{
    let mut pieces: Vec<String> = Vec::new();
    let mut cur = String::new();
    let ghost text = s@;
    assert(text.take(0) =~= Seq::<char>::empty());
    for c in it: s.chars()
        invariant
            text == s@,
            it.seq() == text,
            string_views(pieces@).push(cur@) == split_spec(text.take(it.index() as int), sep),
    {
        let ghost idx = it.index();
        proof {
            assert(text.take(idx + 1).drop_last() =~= text.take(idx as int));
            assert(text.take(idx + 1).last() == c);
        }
        if c == sep {
            let done = cur;
            pieces.push(done);
            cur = String::new();
            assert(string_views(pieces@).push(cur@) =~= split_spec(text.take(idx as int), sep).push(Seq::<char>::empty()));
        } else {
            let ghost before = string_views(pieces@).push(cur@);
            push_char(&mut cur, c);
            assert(string_views(pieces@).push(cur@) =~= before.update(before.len() - 1, before.last().push(c)));
        }
    }
    assert(text.take(text.len() as int) =~= text);
    pieces.push(cur);
    assert(string_views(pieces@) =~= split_spec(text, sep));
    pieces
}


/// `str`'s `==`: true exactly when both hold the same characters.
#[verifier::external_body]
pub(crate) fn str_eq(a: &str, b: &str) -> (same: bool)
    ensures
        same == (a@ == b@),
{
    a == b
}

/// The parts with `sep` between neighbours, as `parts.join(sep)` writes them.
pub fn join_strs(parts: &[&str], sep: &str) -> (joined: String)
    ensures
        joined@ == join_spec(str_views(parts@), sep@),
{
    let mut joined = String::new();
    let ghost views = str_views(parts@);
    let n = parts.len();
    let mut i: usize = 0;
    while i < n
        invariant
            n == parts@.len(),
            views == str_views(parts@),
            i <= n,
            joined@ == join_spec(views.take(i as int), sep@),
        decreases n - i,
    {
        proof {
            assert(views.take(i + 1).drop_last() =~= views.take(i as int));
            assert(views.take(i + 1).last() == parts@[i as int]@);
        }
        if i > 0 {
            joined.append(sep);
        } else {
            assert(views.take(1) =~= seq![views[0]]);
            assert(joined@ + parts@[0]@ =~= parts@[0]@);
        }
        joined.append(parts[i]);
        i = i + 1;
    }
    assert(views.take(n as int) =~= views);
    joined
}

} // verus!
