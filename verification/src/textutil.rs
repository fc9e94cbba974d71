//! Small verified text primitives the rest of the library builds on:
//! whitespace trimming, tokenizing on spaces, joining tokens, decimal
//! numbers, and the announcement length weight.

use vstd::prelude::*;

verus! {

/// ASCII whitespace, the characters `trim` strips.
pub open spec fn is_ws_char(c: char) -> bool {
    c == ' ' || c == '\t' || c == '\n' || c == '\r'
}

/// Decimal digit.
pub open spec fn is_dec_digit(c: char) -> bool {
    48 <= (c as u32) && (c as u32) <= 57
}

/// Numeric value of a decimal digit character.
pub open spec fn digit_val(c: char) -> nat {
    ((c as u32) - 48) as nat
}

/// Every character of `s` is a decimal digit.
pub open spec fn all_digits(s: Seq<char>) -> bool {
    forall|i: int| 0 <= i < s.len() ==> is_dec_digit(s[i])
}

/// Every character of `s` is whitespace (an empty `s` counts).
pub open spec fn all_ws(s: Seq<char>) -> bool {
    forall|i: int| 0 <= i < s.len() ==> is_ws_char(s[i])
}

/// Exec test matching [`is_ws_char`].
pub fn is_ws_char_exec(c: char) -> (r: bool)
    ensures
        r == is_ws_char(c),
{
    c == ' ' || c == '\t' || c == '\n' || c == '\r'
}

/// Character-for-character string equality.
pub fn str_eq(a: &str, b: &str) -> (r: bool)
    ensures
        r == (a@ == b@),
{
    let sa = String::from_str(a);
    let sb = String::from_str(b);
    sa.eq(&sb)
}

/// `s` with leading whitespace removed.
pub open spec fn spec_trim_start(s: Seq<char>) -> Seq<char>
    decreases s.len(),
{
    if s.len() > 0 && is_ws_char(s[0]) {
        spec_trim_start(s.skip(1))
    } else {
        s
    }
}

/// `s` with trailing whitespace removed.
pub open spec fn spec_trim_end(s: Seq<char>) -> Seq<char>
    decreases s.len(),
{
    if s.len() > 0 && is_ws_char(s[s.len() - 1]) {
        spec_trim_end(s.take(s.len() - 1))
    } else {
        s
    }
}

/// `s` with whitespace removed at both ends.
pub open spec fn spec_trim(s: Seq<char>) -> Seq<char> {
    spec_trim_end(spec_trim_start(s))
}

proof fn lemma_trim_start_is_skip(s: Seq<char>, k: int)
    requires
        0 <= k <= s.len(),
        forall|j: int| 0 <= j < k ==> is_ws_char(s[j]),
        k < s.len() ==> !is_ws_char(s[k]),
    ensures
        spec_trim_start(s) =~= s.skip(k),
    decreases k,
{
    if k == 0 {
        assert(s.skip(0) =~= s);
    } else {
        assert(is_ws_char(s[0]));
        let t = s.skip(1);
        assert(forall|j: int| 0 <= j < k - 1 ==> is_ws_char(#[trigger] t[j]));
        lemma_trim_start_is_skip(t, k - 1);
        assert(t.skip(k - 1) =~= s.skip(k));
    }
}

proof fn lemma_trim_end_is_take(s: Seq<char>, k: int)
    requires
        0 <= k <= s.len(),
        forall|j: int| k <= j < s.len() ==> is_ws_char(s[j]),
        k > 0 ==> !is_ws_char(s[k - 1]),
    ensures
        spec_trim_end(s) =~= s.take(k),
    decreases s.len() - k,
{
    if k == s.len() {
        if s.len() > 0 && is_ws_char(s[s.len() - 1]) {
            assert(!is_ws_char(s[k - 1]));
            assert(false);
        }
        assert(s.take(k) =~= s);
    } else {
        assert(is_ws_char(s[s.len() - 1]));
        let t = s.take(s.len() - 1);
        lemma_trim_end_is_take(t, k);
    }
}

/// Strips ASCII whitespace from both ends of `s`.
pub fn trim(s: &str) -> (r: String)
    ensures
        r@ =~= spec_trim(s@),
{
    let len = s.unicode_len();
    let mut start: usize = 0;
    while start < len && is_ws_char_exec(s.get_char(start))
        invariant
            0 <= start <= len,
            len == s@.len(),
            forall|j: int| 0 <= j < start ==> is_ws_char(s@[j]),
        decreases len - start,
    {
        start = start + 1;
    }
    let mut end: usize = len;
    while end > start && is_ws_char_exec(s.get_char(end - 1))
        invariant
            start <= end <= len,
            len == s@.len(),
            forall|j: int| 0 <= j < start ==> is_ws_char(s@[j]),
            start < len ==> !is_ws_char(s@[start as int]),
            forall|j: int| end <= j < len ==> is_ws_char(s@[j]),
        decreases end,
    {
        end = end - 1;
    }
    proof {
        lemma_trim_start_is_skip(s@, start as int);
        let t = s@.skip(start as int);
        assert(forall|j: int| end - start <= j < t.len() ==> is_ws_char(#[trigger] t[j]));
        lemma_trim_end_is_take(t, end - start);
        assert(t.take(end - start) =~= s@.subrange(start as int, end as int));
    }
    let sub = s.substring_char(start, end);
    String::from_str(sub)
}

/// The decimal digit character for `d`.
pub open spec fn spec_digit_char(d: nat) -> char {
    if d == 0 { '0' }
    else if d == 1 { '1' }
    else if d == 2 { '2' }
    else if d == 3 { '3' }
    else if d == 4 { '4' }
    else if d == 5 { '5' }
    else if d == 6 { '6' }
    else if d == 7 { '7' }
    else if d == 8 { '8' }
    else { '9' }
}

/// Decimal rendering of `n`, most significant digit first, no sign and no
/// leading zero (except for `0` itself).
pub open spec fn spec_dec(n: nat) -> Seq<char>
    decreases n,
{
    if n < 10 {
        seq![spec_digit_char(n)]
    } else {
        spec_dec(n / 10).push(spec_digit_char(n % 10))
    }
}

fn digit_str(d: usize) -> (r: &'static str)
    requires
        d < 10,
    ensures
        r@ =~= seq![spec_digit_char(d as nat)],
{
    let r: &'static str = if d == 0 { "0" }
    else if d == 1 { "1" }
    else if d == 2 { "2" }
    else if d == 3 { "3" }
    else if d == 4 { "4" }
    else if d == 5 { "5" }
    else if d == 6 { "6" }
    else if d == 7 { "7" }
    else if d == 8 { "8" }
    else { "9" };
    proof {
        reveal_strlit("0");
        reveal_strlit("1");
        reveal_strlit("2");
        reveal_strlit("3");
        reveal_strlit("4");
        reveal_strlit("5");
        reveal_strlit("6");
        reveal_strlit("7");
        reveal_strlit("8");
        reveal_strlit("9");
    }
    r
}

/// Renders `n` in decimal.
pub fn render_dec(n: usize) -> (r: String)
    ensures
        r@ =~= spec_dec(n as nat),
    decreases n,
{
    if n < 10 {
        String::from_str(digit_str(n))
    } else {
        let mut prefix = render_dec(n / 10);
        prefix.append(digit_str(n % 10));
        prefix
    }
}

/// Renders a length score in decimal.
pub fn render_dec_u128(n: u128) -> (r: String)
    ensures
        r@ =~= spec_dec(n as nat),
    decreases n,
{
    if n < 10 {
        String::from_str(digit_str(n as usize))
    } else {
        let mut prefix = render_dec_u128(n / 10);
        prefix.append(digit_str((n % 10) as usize));
        prefix
    }
}

/// The number a digit string denotes.
pub open spec fn spec_dec_value(s: Seq<char>) -> nat
    decreases s.len(),
{
    if s.len() == 0 {
        0
    } else {
        spec_dec_value(s.take(s.len() - 1)) * 10 + digit_val(s[s.len() - 1])
    }
}

/// A longer digit prefix never denotes a smaller number.
pub proof fn lemma_dec_value_mono_pub(s: Seq<char>, i: int, j: int)
    requires
        0 <= i <= j <= s.len(),
    ensures
        spec_dec_value(s.take(i)) <= spec_dec_value(s.take(j)),
{
    lemma_dec_value_mono(s, i, j);
}

proof fn lemma_dec_value_mono(s: Seq<char>, i: int, j: int)
    requires
        0 <= i <= j <= s.len(),
    ensures
        spec_dec_value(s.take(i)) <= spec_dec_value(s.take(j)),
    decreases j - i,
{
    if i < j {
        lemma_dec_value_mono(s, i, j - 1);
        let t = s.take(j);
        assert(t.take(j - 1) =~= s.take(j - 1));
        assert(spec_dec_value(s.take(j)) == spec_dec_value(s.take(j - 1)) * 10 + digit_val(s[j
            - 1]));
        assert(spec_dec_value(s.take(j - 1)) * 10 >= spec_dec_value(s.take(j - 1)));
    }
}

/// Parses a string of decimal digits as a `usize`. Yields `None` when the
/// string is empty, holds a non-digit, or denotes a number above
/// `usize::MAX`.
pub fn parse_usize(s: &str) -> (r: Option<usize>)
    ensures
        match r {
            Some(v) => s@.len() > 0 && all_digits(s@) && v == spec_dec_value(s@),
            None => s@.len() == 0 || !all_digits(s@) || spec_dec_value(s@) > usize::MAX,
        },
{
    let len = s.unicode_len();
    if len == 0 {
        return None;
    }
    let mut acc: u128 = 0;
    let mut i: usize = 0;
    while i < len
        invariant
            0 <= i <= len,
            len == s@.len(),
            forall|j: int| 0 <= j < i ==> is_dec_digit(s@[j]),
            acc == spec_dec_value(s@.take(i as int)),
            acc <= usize::MAX,
        decreases len - i,
    {
        let c = s.get_char(i);
        let cv = c as u32;
        if cv < 48 || cv > 57 {
            return None;
        }
        let d: u128 = (cv - 48) as u128;
        let next: u128 = acc * 10 + d;
        proof {
            assert(s@.take(i + 1).take(i as int) =~= s@.take(i as int));
            assert(s@.take(i + 1)[i as int] == s@[i as int]);
        }
        if next > usize::MAX as u128 {
            proof {
                lemma_dec_value_mono(s@, i + 1, s@.len() as int);
                assert(s@.take(s@.len() as int) =~= s@);
            }
            return None;
        }
        acc = next;
        i = i + 1;
    }
    proof {
        assert(s@.take(len as int) =~= s@);
    }
    Some(acc as usize)
}

/// The length score of an announcement: an ASCII character counts 1,
/// any other character counts 2.
pub open spec fn char_weight(c: char) -> nat {
    if (c as u32) < 128 {
        1
    } else {
        2
    }
}

/// Total length score of a text.
pub open spec fn spec_tweet_weight(s: Seq<char>) -> nat
    decreases s.len(),
{
    if s.len() == 0 {
        0
    } else {
        spec_tweet_weight(s.take(s.len() - 1)) + char_weight(s[s.len() - 1])
    }
}

/// Computes the length score of a text.
pub fn tweet_weight(s: &str) -> (r: u128)
    ensures
        r == spec_tweet_weight(s@),
        r <= 2 * s@.len(),
{
    let len = s.unicode_len();
    let mut acc: u128 = 0;
    let mut i: usize = 0;
    while i < len
        invariant
            0 <= i <= len,
            len == s@.len(),
            acc == spec_tweet_weight(s@.take(i as int)),
            acc <= 2 * i,
        decreases len - i,
    {
        let c = s.get_char(i);
        let w: u128 = if (c as u32) < 128 { 1 } else { 2 };
        proof {
            assert(s@.take(i + 1).take(i as int) =~= s@.take(i as int));
            assert(s@.take(i + 1)[i as int] == s@[i as int]);
        }
        acc = acc + w;
        i = i + 1;
    }
    proof {
        assert(s@.take(len as int) =~= s@);
    }
    acc
}

/// Index of the first space in `s` (`s.len()` when there is none).
pub open spec fn first_space(s: Seq<char>) -> nat
    decreases s.len(),
{
    if s.len() == 0 {
        0
    } else if s[0] == ' ' {
        0
    } else {
        1 + first_space(s.skip(1))
    }
}

/// The tokens of `s`: maximal space-separated runs, dropping runs that
/// hold only whitespace. This is how a raw chat line is cut into words.
pub open spec fn spec_tokens(s: Seq<char>) -> Seq<Seq<char>>
    decreases s.len(),
{
    if s.len() == 0 {
        seq![]
    } else {
        let e = first_space(s) as int;
        if e >= s.len() {
            if all_ws(s) {
                seq![]
            } else {
                seq![s]
            }
        } else {
            let head = s.take(e);
            let rest = spec_tokens(s.skip(e + 1));
            if all_ws(head) {
                rest
            } else {
                seq![head] + rest
            }
        }
    }
}

proof fn lemma_first_space_at(t: Seq<char>, k: int)
    requires
        0 <= k <= t.len(),
        forall|j: int| 0 <= j < k ==> t[j] != ' ',
        k < t.len() ==> t[k] == ' ',
    ensures
        first_space(t) == k,
    decreases k,
{
    if k == 0 {
        if t.len() > 0 {
            assert(t[0] == ' ');
        }
    } else {
        assert(t[0] != ' ');
        let u = t.skip(1);
        assert(forall|j: int| 0 <= j < k - 1 ==> #[trigger] u[j] != ' ');
        lemma_first_space_at(u, k - 1);
    }
}

/// Is every character of `s` whitespace?
pub fn all_ws_exec(s: &str) -> (r: bool)
    ensures
        r == all_ws(s@),
{
    let len = s.unicode_len();
    let mut i: usize = 0;
    while i < len
        invariant
            0 <= i <= len,
            len == s@.len(),
            forall|j: int| 0 <= j < i ==> is_ws_char(s@[j]),
        decreases len - i,
    {
        if !is_ws_char_exec(s.get_char(i)) {
            return false;
        }
        i = i + 1;
    }
    true
}

fn find_space_from(s: &str, from: usize) -> (e: usize)
    requires
        from <= s@.len(),
    ensures
        from <= e <= s@.len(),
        forall|j: int| from <= j < e ==> s@[j] != ' ',
        e < s@.len() ==> s@[e as int] == ' ',
{
    let len = s.unicode_len();
    let mut i: usize = from;
    while i < len
        invariant
            from <= i <= len,
            len == s@.len(),
            forall|j: int| from <= j < i ==> s@[j] != ' ',
        decreases len - i,
    {
        if s.get_char(i) == ' ' {
            return i;
        }
        i = i + 1;
    }
    len
}

/// Cuts a raw line into its tokens.
pub fn tokenize(s: &str) -> (tokens: Vec<String>)
    ensures
        tokens.deep_view() =~= spec_tokens(s@),
{
    let len = s.unicode_len();
    let mut acc: Vec<String> = Vec::new();
    let mut pos: usize = 0;
    proof {
        assert(acc.deep_view() =~= Seq::<Seq<char>>::empty());
        assert(s@.skip(0) =~= s@);
        assert(acc.deep_view() + spec_tokens(s@) =~= spec_tokens(s@));
    }
    loop
        invariant
            0 <= pos <= len,
            len == s@.len(),
            spec_tokens(s@) =~= acc.deep_view() + spec_tokens(s@.skip(pos as int)),
        ensures
            spec_tokens(s@) =~= acc.deep_view(),
        decreases len - pos,
    {
        if pos == len {
            proof {
                assert(s@.skip(len as int) =~= Seq::<char>::empty());
                assert(spec_tokens(s@) =~= acc.deep_view());
            }
            break;
        }
        let e = find_space_from(s, pos);
        let tok_str = s.substring_char(pos, e);
        let tok = String::from_str(tok_str);
        let ghost rem = s@.skip(pos as int);
        proof {
            assert(rem.len() == len - pos);
            assert(forall|j: int| 0 <= j < e - pos ==> #[trigger] rem[j] != ' ') by {
                assert(forall|j: int| 0 <= j < e - pos ==> rem[j] == s@[j + pos]);
            }
            if e < len {
                assert(rem[e - pos] == s@[e as int]);
            }
            lemma_first_space_at(rem, e - pos);
        }
        let keep = !all_ws_exec(tok_str);
        let ghost old_acc = acc.deep_view();
        if keep {
            acc.push(tok);
        }
        proof {
            if keep {
                assert(acc.deep_view() =~= old_acc.push(tok@));
            }
        }
        if e == len {
            proof {
                assert(rem =~= s@.subrange(pos as int, len as int));
                assert(tok@ == rem);
                assert(first_space(rem) == rem.len());
                if keep {
                    assert(spec_tokens(rem) =~= seq![rem]);
                    assert(old_acc.push(tok@) =~= old_acc + seq![rem]);
                } else {
                    assert(spec_tokens(rem) =~= Seq::<Seq<char>>::empty());
                }
                assert(s@.skip(len as int) =~= Seq::<char>::empty());
                assert(spec_tokens(s@) =~= acc.deep_view() + spec_tokens(s@.skip(len as int)));
            }
            pos = len;
            proof {
                assert(s@.skip(len as int) =~= Seq::<char>::empty());
                assert(spec_tokens(s@) =~= acc.deep_view());
            }
            break;
        } else {
            proof {
                let ep = e - pos;
                assert(0 <= ep < rem.len());
                let head = rem.take(ep);
                assert(head =~= s@.subrange(pos as int, e as int));
                assert(tok@ == head);
                assert(rem.skip(ep + 1) =~= s@.skip(e + 1));
                if keep {
                    assert(spec_tokens(rem) == seq![head] + spec_tokens(rem.skip(ep + 1)));
                    assert(old_acc.push(head) + spec_tokens(s@.skip(e + 1)) =~= old_acc + (
                    seq![head] + spec_tokens(s@.skip(e + 1))));
                } else {
                    assert(spec_tokens(rem) == spec_tokens(rem.skip(ep + 1)));
                }
                assert(spec_tokens(s@) =~= acc.deep_view() + spec_tokens(s@.skip(e + 1)));
            }
            pos = e + 1;
        }
    }
    acc
}

/// The tokens joined with single spaces between them.
pub open spec fn spec_join(toks: Seq<Seq<char>>) -> Seq<char>
    decreases toks.len(),
{
    if toks.len() == 0 {
        Seq::empty()
    } else if toks.len() == 1 {
        toks[0]
    } else {
        spec_join(toks.drop_last()) + seq![' '] + toks.last()
    }
}

/// Joins tokens with single spaces and trims the result, as the command
/// language does when it glues argument words back into one text.
pub fn unsplit_ignoring_space(slice: &[String]) -> (r: String)
    ensures
        r@ =~= spec_trim(spec_join(slice.deep_view())),
{
    let n = slice.len();
    let mut joined = String::new();
    let mut i: usize = 0;
    while i < n
        invariant
            0 <= i <= n,
            n == slice.deep_view().len(),
            joined@ =~= spec_join(slice.deep_view().take(i as int)),
        decreases n - i,
    {
        if i > 0 {
            joined.append(" ");
            proof {
                reveal_strlit(" ");
            }
        }
        joined.append(slice[i].as_str());
        proof {
            let dv = slice.deep_view();
            assert(dv[i as int] == slice@[i as int]@);
            let t = dv.take(i + 1);
            assert(t.drop_last() =~= dv.take(i as int));
            assert(t.last() == dv[i as int]);
            if i > 0 {
                assert(joined@ =~= spec_join(dv.take(i as int)) + seq![' '] + dv[i as int]);
            } else {
                assert(joined@ =~= dv[0]);
            }
        }
        i = i + 1;
    }
    proof {
        assert(slice.deep_view().take(n as int) =~= slice.deep_view());
    }
    trim(joined.as_str())
}

/// A rendered number consists of digits only.
pub proof fn lemma_spec_dec_digits(n: nat)
    ensures
        all_digits(spec_dec(n)),
        spec_dec(n).len() >= 1,
    decreases n,
{
    if n < 10 {
        assert(is_dec_digit(spec_digit_char(n)));
        assert(forall|i: int| 0 <= i < spec_dec(n).len() ==> is_dec_digit(spec_dec(n)[i]));
    } else {
        lemma_spec_dec_digits(n / 10);
        assert(n % 10 < 10) by (nonlinear_arith);
        assert(is_dec_digit(spec_digit_char(n % 10)));
        let d = spec_dec(n / 10);
        assert(spec_dec(n) == d.push(spec_digit_char(n % 10)));
        assert(forall|i: int| 0 <= i < spec_dec(n).len() ==> is_dec_digit(spec_dec(n)[i])) by {
            assert(forall|i: int| 0 <= i < d.len() ==> is_dec_digit(#[trigger] d[i]));
            assert(forall|i: int|
                0 <= i < d.len() ==> d.push(spec_digit_char(n % 10))[i] == d[i]);
        }
    }
}

proof fn lemma_digit_char_val(m: nat)
    requires
        m < 10,
    ensures
        digit_val(spec_digit_char(m)) == m,
{
}

/// Parsing a rendered number gives the number back.
pub proof fn lemma_spec_dec_value(n: nat)
    ensures
        spec_dec_value(spec_dec(n)) == n,
    decreases n,
{
    if n < 10 {
        let s = spec_dec(n);
        assert(s.len() == 1);
        assert(s.take(0) =~= Seq::<char>::empty());
        assert(spec_dec_value(Seq::<char>::empty()) == 0);
        lemma_digit_char_val(n);
        assert(s[0] == spec_digit_char(n));
        assert(spec_dec_value(s) == spec_dec_value(s.take(0)) * 10 + digit_val(s[0]));
    } else {
        lemma_spec_dec_value(n / 10);
        assert(n % 10 < 10 && n == (n / 10) * 10 + n % 10) by (nonlinear_arith);
        lemma_digit_char_val(n % 10);
        let d = spec_dec(n / 10);
        let s = d.push(spec_digit_char(n % 10));
        assert(s.take(s.len() - 1) =~= d);
        assert(s[s.len() - 1] == spec_digit_char(n % 10));
        assert(spec_dec_value(s) == spec_dec_value(d) * 10 + digit_val(spec_digit_char(n % 10)));
    }
}

} // verus!
