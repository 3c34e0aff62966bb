//! Text helpers: comparison, decimal numbers, substitution and joining.
//!
//! Every function here is stated over the characters of a string, so the
//! contracts of the modules above can be exact about the text they produce.

use vstd::prelude::*;
use vstd::string::*;

verus! {

/// Whether `pat` stands in `s` at position `i`.
pub open spec fn occurs_at(s: Seq<char>, pat: Seq<char>, i: int) -> bool {
    0 <= i <= s.len() - pat.len() && s.subrange(i, i + pat.len()) == pat
}

/// Whether `pat` stands anywhere in `s`.
pub open spec fn occurs(s: Seq<char>, pat: Seq<char>) -> bool {
    exists|i: int| #[trigger] occurs_at(s, pat, i)
}

/// `s` with every occurrence of `pat`, found from left to right and without
/// overlap, replaced by `with`.
pub open spec fn replaced(s: Seq<char>, pat: Seq<char>, with: Seq<char>) -> Seq<char>
    decreases s.len(),
{
    if pat.len() == 0 || s.len() == 0 {
        s
    } else if occurs_at(s, pat, 0) {
        with + replaced(s.skip(pat.len() as int), pat, with)
    } else {
        seq![s[0]] + replaced(s.skip(1), pat, with)
    }
}

/// The decimal digit for a number below ten.
pub open spec fn digit(d: nat) -> char {
    (('0' as nat) + d) as char
}

/// A number in decimal notation, without leading zeros.
pub open spec fn decimal(n: nat) -> Seq<char>
    decreases n,
{
    if n < 10 {
        seq![digit(n)]
    } else {
        decimal(n / 10).push(digit(n % 10))
    }
}

/// The number that a sequence of decimal digits denotes.
pub open spec fn decimal_value(s: Seq<char>) -> nat
    decreases s.len(),
{
    if s.len() == 0 {
        0
    } else {
        (decimal_value(s.drop_last()) * 10 + (s.last() as nat - '0' as nat)) as nat
    }
}

/// The parts in order, with `sep` between neighbours.
pub open spec fn joined(parts: Seq<Seq<char>>, sep: Seq<char>) -> Seq<char>
    decreases parts.len(),
{
    if parts.len() == 0 {
        Seq::empty()
    } else if parts.len() == 1 {
        parts[0]
    } else {
        joined(parts.drop_last(), sep) + sep + parts.last()
    }
}

/// The texts of a list of strings.
pub open spec fn texts(parts: Seq<String>) -> Seq<Seq<char>> {
    parts.map_values(|s: String| s@)
}

/// Reading a number's decimal notation gives the number back, so different
/// numbers never share a notation.
pub proof fn lemma_decimal_round_trip(n: nat)
    ensures
        decimal_value(decimal(n)) == n,
        decimal(n).len() > 0,
    decreases n,
{
    reveal_with_fuel(decimal_value, 2);
    if n < 10 {
        assert(decimal(n).drop_last() =~= Seq::<char>::empty());
    } else {
        lemma_decimal_round_trip(n / 10);
        assert(decimal(n).drop_last() =~= decimal(n / 10));
    }
}

/// Text without the pattern is left as it is.
pub proof fn lemma_replaced_unchanged(s: Seq<char>, pat: Seq<char>, with: Seq<char>)
    requires
        !occurs(s, pat),
    ensures
        replaced(s, pat, with) == s,
    decreases s.len(),
{
    if pat.len() > 0 && s.len() > 0 {
        assert(!occurs_at(s, pat, 0));
        let rest = s.skip(1);
        assert forall|i: int| !occurs_at(rest, pat, i) by {
            if occurs_at(rest, pat, i) {
                assert(s.subrange(i + 1, i + 1 + pat.len()) =~= rest.subrange(i, i + pat.len()));
                assert(occurs_at(s, pat, i + 1));
            }
        }
        lemma_replaced_unchanged(rest, pat, with);
        assert(seq![s[0]] + rest =~= s);
    }
}

/// Where the replacement neither starts nor ends with a character of the
/// pattern, and does not hold the pattern itself, the pattern is gone after
/// substitution.
pub proof fn lemma_replaced_is_free_of_pattern(s: Seq<char>, pat: Seq<char>, with: Seq<char>)
    requires
        pat.len() > 0,
        with.len() > 0,
        !pat.contains(with[0]),
        !pat.contains(with.last()),
        !occurs(with, pat),
    ensures
        !occurs(replaced(s, pat, with), pat),
{
    let out = replaced(s, pat, with);
    assert forall|i: int| !occurs_at(out, pat, i) by {
        lemma_no_occurrence(s, pat, with, i);
    }
}

/// The step behind `lemma_replaced_is_free_of_pattern`: an occurrence at `i` is
/// impossible.
proof fn lemma_no_occurrence(s: Seq<char>, pat: Seq<char>, with: Seq<char>, i: int)
    requires
        pat.len() > 0,
        with.len() > 0,
        !pat.contains(with[0]),
        !pat.contains(with.last()),
        !occurs(with, pat),
    ensures
        !occurs_at(replaced(s, pat, with), pat, i),
    decreases s.len(),
{
    let out = replaced(s, pat, with);
    if occurs_at(out, pat, i) {
        let window = out.subrange(i, i + pat.len());
        assert forall|j: int| i <= j < i + pat.len() implies pat.contains(#[trigger] out[j]) by {
            assert(window[j - i] == out[j]);
            assert(pat[j - i] == out[j]);
        }
        if s.len() == 0 {
        } else if occurs_at(s, pat, 0) {
            let tail = replaced(s.skip(pat.len() as int), pat, with);
            let n = with.len() as int;
            assert(out == with + tail);
            if i >= n {
                assert(tail.subrange(i - n, i - n + pat.len()) =~= window);
                assert(occurs_at(tail, pat, i - n));
                lemma_no_occurrence(s.skip(pat.len() as int), pat, with, i - n);
            } else if i + pat.len() >= n {
                // The window covers the last character of the replacement.
                assert(out[n - 1] == with.last());
            } else {
                assert(with.subrange(i, i + pat.len()) =~= window);
                assert(occurs_at(with, pat, i));
            }
        } else {
            let tail = replaced(s.skip(1), pat, with);
            assert(out == seq![s[0]] + tail);
            if i >= 1 {
                assert(tail.subrange(i - 1, i - 1 + pat.len()) =~= window);
                assert(occurs_at(tail, pat, i - 1));
                lemma_no_occurrence(s.skip(1), pat, with, i - 1);
            } else {
                lemma_head_kept(s, pat, with, pat.len() as int);
                assert(s.subrange(0, pat.len() as int) =~= s.take(pat.len() as int));
                assert(window =~= out.take(pat.len() as int));
                assert(occurs_at(s, pat, 0));
            }
        }
    }
}

/// Where the first `k` characters of the output are all characters of the
/// pattern and the replacement starts with none of them, those characters are
/// the first `k` of the input.
proof fn lemma_head_kept(s: Seq<char>, pat: Seq<char>, with: Seq<char>, k: int)
    requires
        pat.len() > 0,
        with.len() > 0,
        !pat.contains(with[0]),
        0 <= k <= replaced(s, pat, with).len(),
        forall|j: int| 0 <= j < k ==> pat.contains(#[trigger] replaced(s, pat, with)[j]),
    ensures
        k <= s.len(),
        s.take(k) == replaced(s, pat, with).take(k),
    decreases s.len(),
{
    let out = replaced(s, pat, with);
    if k == 0 || s.len() == 0 {
        assert(s.take(k) =~= out.take(k));
    } else if occurs_at(s, pat, 0) {
        assert(out[0] == with[0]);
    } else {
        let tail = replaced(s.skip(1), pat, with);
        assert(out == seq![s[0]] + tail);
        assert forall|j: int| 0 <= j < k - 1 implies pat.contains(#[trigger] tail[j]) by {
            assert(out[j + 1] == tail[j]);
        }
        lemma_head_kept(s.skip(1), pat, with, k - 1);
        assert forall|j: int| 0 <= j < k implies s[j] == out[j] by {
            if j > 0 {
                assert(s.skip(1).take(k - 1)[j - 1] == tail.take(k - 1)[j - 1]);
            }
        }
        assert(s.take(k) =~= out.take(k));
    }
}

/// A pattern stands at a position exactly where its characters stand there, one
/// by one.
pub proof fn lemma_occurs_at_means_characters(s: Seq<char>, pat: Seq<char>, i: int)
    ensures
        occurs_at(s, pat, i) <==> 0 <= i && i + pat.len() <= s.len() && forall|j: int|
            0 <= j < pat.len() ==> s[i + j] == #[trigger] pat[j],
{
    if 0 <= i && i + pat.len() <= s.len() {
        let window = s.subrange(i, i + pat.len());
        if occurs_at(s, pat, i) {
            assert forall|j: int| 0 <= j < pat.len() implies s[i + j] == #[trigger] pat[j] by {
                assert(window[j] == s[i + j]);
            }
        }
        if forall|j: int| 0 <= j < pat.len() ==> s[i + j] == #[trigger] pat[j] {
            assert(window =~= pat);
        }
    }
}

/// A text holds a pattern exactly where it can be split around it.
pub proof fn lemma_occurs_means_split(s: Seq<char>, pat: Seq<char>)
    ensures
        occurs(s, pat) <==> exists|a: Seq<char>, b: Seq<char>| s == #[trigger] (a + pat + b),
{
    if occurs(s, pat) {
        let i = choose|i: int| #[trigger] occurs_at(s, pat, i);
        let a = s.take(i);
        let b = s.skip(i + pat.len());
        assert(s =~= a + pat + b);
    }
    if exists|a: Seq<char>, b: Seq<char>| s == #[trigger] (a + pat + b) {
        let (a, b) = choose|a: Seq<char>, b: Seq<char>| s == #[trigger] (a + pat + b);
        assert(s.subrange(a.len() as int, (a.len() + pat.len()) as int) =~= pat);
        assert(occurs_at(s, pat, a.len() as int));
    }
}

/// Substitution keeps what stands before the first occurrence, puts the
/// replacement in place of it, and goes on behind it.
pub proof fn lemma_replaced_at_first_occurrence(
    a: Seq<char>,
    pat: Seq<char>,
    b: Seq<char>,
    with: Seq<char>,
)
    requires
        pat.len() > 0,
        forall|i: int| 0 <= i < a.len() ==> !#[trigger] occurs_at(a + pat + b, pat, i),
    ensures
        replaced(a + pat + b, pat, with) == a + with + replaced(b, pat, with),
    decreases a.len(),
{
    let s = a + pat + b;
    if a.len() == 0 {
        assert(s.subrange(0, pat.len() as int) =~= pat);
        assert(occurs_at(s, pat, 0));
        assert(s.skip(pat.len() as int) =~= b);
        assert(a + with =~= with);
    } else {
        assert(!occurs_at(s, pat, 0));
        let rest = a.skip(1);
        let t = rest + pat + b;
        assert(s.skip(1) =~= t);
        assert forall|i: int| 0 <= i < rest.len() implies !#[trigger] occurs_at(t, pat, i) by {
            assert(!occurs_at(s, pat, i + 1));
            if occurs_at(t, pat, i) {
                assert(s.subrange(i + 1, i + 1 + pat.len()) =~= t.subrange(i, i + pat.len()));
            }
        }
        lemma_replaced_at_first_occurrence(rest, pat, b, with);
        assert(seq![s[0]] + (rest + with + replaced(b, pat, with)) =~= a + with + replaced(
            b,
            pat,
            with,
        ));
    }
}

/// The digits are those from zero to nine, in order.
pub proof fn lemma_digits(d: nat)
    requires
        d < 10,
    ensures
        digit(d) == "0123456789"@[d as int],
        '0' <= digit(d) <= '9',
{
    reveal_strlit("0123456789");
}

/// The notation of a number is made of digits, and it has no leading zero.
pub proof fn lemma_decimal_is_made_of_digits(n: nat)
    ensures
        decimal(n).len() > 0,
        forall|i: int| 0 <= i < decimal(n).len() ==> '0' <= #[trigger] decimal(n)[i] <= '9',
        decimal(n).len() > 1 ==> decimal(n)[0] != '0',
        n > 0 ==> decimal(n)[0] != '0',
    decreases n,
{
    if n >= 10 {
        lemma_decimal_is_made_of_digits(n / 10);
        let head = decimal(n / 10);
        assert forall|i: int| 0 <= i < decimal(n).len() implies '0' <= #[trigger] decimal(n)[i]
            <= '9' by {
            if i < head.len() {
                assert(decimal(n)[i] == head[i]);
            }
        }
        assert(decimal(n)[0] == head[0]);
    }
}

/// A number of one digit is that digit, and appending a digit to the notation of
/// a number multiplies the number by ten and adds the digit.
pub proof fn lemma_decimal_grows_by_digits(n: nat, d: nat)
    requires
        d < 10,
    ensures
        decimal(d) == seq!["0123456789"@[d as int]],
        n > 0 ==> decimal(10 * n + d) == decimal(n).push("0123456789"@[d as int]),
{
    lemma_digits(d);
    let m = 10 * n + d;
    if n > 0 {
        assert(m / 10 == n && m % 10 == d);
        assert(decimal(m) == decimal(n).push(digit(d)));
    }
}

/// Reading a digit more multiplies by ten and adds it; no digits are zero.
pub proof fn lemma_decimal_value_reads_digits(s: Seq<char>, c: char)
    requires
        '0' <= c <= '9',
    ensures
        decimal_value(Seq::empty()) == 0,
        decimal_value(s.push(c)) == 10 * decimal_value(s) + (c as nat - '0' as nat),
{
    assert(s.push(c).drop_last() =~= s);
}

/// Two texts of digits without leading zeros that are read as the same number
/// are the same, so the notation of a number is the only one it has.
pub proof fn lemma_decimal_is_the_only_notation(s: Seq<char>)
    requires
        s.len() > 0,
        forall|i: int| 0 <= i < s.len() ==> '0' <= #[trigger] s[i] <= '9',
        s.len() > 1 ==> s[0] != '0',
    ensures
        decimal(decimal_value(s)) == s,
        s[0] != '0' ==> decimal_value(s) > 0,
    decreases s.len(),
{
    let init = s.drop_last();
    let d = (s.last() as nat - '0' as nat) as nat;
    assert('0' <= s[s.len() - 1] <= '9');
    assert(digit(d) == s.last());
    if s.len() == 1 {
        assert(init =~= Seq::empty());
        reveal_with_fuel(decimal_value, 2);
        assert(s =~= seq![digit(d)]);
    } else {
        assert forall|i: int| 0 <= i < init.len() implies '0' <= #[trigger] init[i] <= '9' by {
            assert(init[i] == s[i]);
        }
        assert(init[0] == s[0]);
        lemma_decimal_is_the_only_notation(init);
        let n = decimal_value(init);
        assert(decimal_value(s) == 10 * n + d);
        assert((10 * n + d) / 10 == n && (10 * n + d) % 10 == d);
        assert(init.push(s.last()) =~= s);
    }
}

/// Nothing joins to nothing, one part to itself, and two lists of parts with the
/// separator between them.
pub proof fn lemma_joined_concat(a: Seq<Seq<char>>, b: Seq<Seq<char>>, sep: Seq<char>)
    ensures
        joined(Seq::empty(), sep) == Seq::<char>::empty(),
        a.len() == 1 ==> joined(a, sep) == a[0],
        a.len() > 0 && b.len() > 0 ==> joined(a + b, sep) == joined(a, sep) + sep + joined(b, sep),
    decreases b.len(),
{
    if a.len() > 0 && b.len() > 0 {
        let init = b.drop_last();
        assert((a + b).drop_last() =~= a + init);
        assert((a + b).last() == b.last());
        if b.len() == 1 {
            assert(a + init =~= a);
        } else {
            lemma_joined_concat(a, init, sep);
            assert(joined(a, sep) + sep + joined(init, sep) + sep + b.last() =~= joined(a, sep)
                + sep + (joined(init, sep) + sep + b.last()));
        }
    }
}

/// The texts are those of the strings, one by one.
pub proof fn lemma_texts_are_those_of_the_strings(parts: Seq<String>, i: int)
    ensures
        texts(parts).len() == parts.len(),
        0 <= i < parts.len() ==> texts(parts)[i] == parts[i]@,
{
}

/// Whether two strings hold the same text.
pub fn same(a: &str, b: &str) -> (r: bool)
    ensures
        r == (a@ == b@),
{
    a.to_owned() == b.to_owned()
}

/// The two texts, one after the other.
pub fn glue(a: &str, b: &str) -> (r: String)
    ensures
        r@ == a@ + b@,
{
    a.to_owned().concat(b)
}

/// The three texts, one after the other.
pub fn glue3(a: &str, b: &str, c: &str) -> (r: String)
    ensures
        r@ == a@ + b@ + c@,
{
    a.to_owned().concat(b).concat(c)
}

/// The decimal digit for a number below ten, as a one-character string.
fn digit_str(d: u64) -> (r: &'static str)
    requires
        d < 10,
    ensures
        r@ == seq![digit(d as nat)],
{
    proof {
        reveal_strlit("0");
        reveal_strlit("1");
        reveal_strlit("2");
        reveal_strlit("3");
        reveal_strlit("4");
        reveal_strlit("5");
        reveal_strlit("6");
        reveal_strlit("7");
        reveal_strlit("8");
        reveal_strlit("9");
    }
    match d {
        0 => "0",
        1 => "1",
        2 => "2",
        3 => "3",
        4 => "4",
        5 => "5",
        6 => "6",
        7 => "7",
        8 => "8",
        _ => "9",
    }
}

/// A number in decimal notation.
pub fn to_decimal(n: u64) -> (r: String)
    ensures
        r@ == decimal(n as nat),
    decreases n,
{
    if n < 10 {
        digit_str(n).to_owned()
    } else {
        let head = to_decimal(n / 10);
        let r = head.concat(digit_str(n % 10));
        assert(r@ =~= decimal(n as nat));
        r
    }
}

/// Replaces every occurrence of `pat` in `s`, from left to right.
pub fn replace_all(s: &str, pat: &str, with: &str) -> (r: String)
    requires
        pat@.len() > 0,
    ensures
        r@ == replaced(s@, pat@, with@),
{
    let n: usize = s.unicode_len();
    let m: usize = pat.unicode_len();
    let mut out = String::new();
    let mut i: usize = 0;
    assert(s@.skip(0) =~= s@);
    while i < n
        invariant
            n == s@.len(),
            m == pat@.len(),
            m > 0,
            i <= n,
            out@ + replaced(s@.skip(i as int), pat@, with@) == replaced(s@, pat@, with@),
        decreases n - i,
    {
        let ghost rest = s@.skip(i as int);
        let ghost before = out@;
        if n - i >= m && same(s.substring_char(i, i + m), pat) {
            assert(rest.subrange(0, m as int) =~= s@.subrange(i as int, i + m));
            assert(occurs_at(rest, pat@, 0));
            assert(rest.skip(m as int) =~= s@.skip(i + m));
            out.append(with);
            i = i + m;
            assert(out@ + replaced(s@.skip(i as int), pat@, with@) =~= before + (with@ + replaced(
                s@.skip(i as int),
                pat@,
                with@,
            )));
        } else {
            proof {
                if n - i >= m {
                    assert(rest.subrange(0, m as int) =~= s@.subrange(i as int, i + m));
                }
            }
            assert(!occurs_at(rest, pat@, 0));
            assert(rest.skip(1) =~= s@.skip(i + 1));
            out.append(s.substring_char(i, i + 1));
            assert(s@.subrange(i as int, i + 1) =~= seq![rest[0]]);
            i = i + 1;
            assert(out@ + replaced(s@.skip(i as int), pat@, with@) =~= before + (seq![rest[0]]
                + replaced(s@.skip(i as int), pat@, with@)));
        }
    }
    assert(s@.skip(i as int) =~= Seq::empty());
    assert(out@ =~= out@ + Seq::<char>::empty());
    out
}

/// Joins the parts with `sep` between neighbours.
pub fn join_with(parts: &Vec<String>, sep: &str) -> (r: String)
    ensures
        r@ == joined(texts(parts@), sep@),
{
    let ghost all = texts(parts@);
    let mut out = String::new();
    let mut i: usize = 0;
    while i < parts.len()
        invariant
            all == texts(parts@),
            i <= parts@.len(),
            out@ == joined(all.take(i as int), sep@),
        decreases parts@.len() - i,
    {
        assert(all.take(i + 1).drop_last() =~= all.take(i as int));
        if i > 0 {
            out.append(sep);
        } else {
            assert(all.take(1)[0] == parts@[0]@);
            assert(Seq::<char>::empty() + parts@[0]@ =~= parts@[0]@);
        }
        out.append(parts[i].as_str());
        i = i + 1;
    }
    assert(all.take(i as int) =~= all);
    out
}

} // verus!
