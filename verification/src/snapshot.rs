//! The queue snapshot: the text written to disk after every queue
//! mutation and read back once at startup.
//!
//! The format is line-oriented and self-delimiting: a count line, then
//! one line per presentation holding the four fields (icon, handle, name,
//! title). A text field is written as `<length>:<characters>`; an
//! optional field as `-` when absent or `+<length>:<characters>` when
//! present. Loading parses exactly this shape and yields the original
//! sequence of presentations unchanged.

use vstd::prelude::*;

use crate::model::{Presentation, PresentationView, User, UserView};
use crate::queue::Presentations;
use crate::textutil::{render_dec, spec_dec, spec_dec_value};

verus! {

/// A text field in the snapshot: its length, a colon, its characters.
pub open spec fn spec_enc_str(s: Seq<char>) -> Seq<char> {
    spec_dec(s.len()) + seq![':'] + s
}

/// An optional text field: `-` when absent, `+` and the field when
/// present.
pub open spec fn spec_enc_opt(o: Option<Seq<char>>) -> Seq<char> {
    match o {
        None => seq!['-'],
        Some(s) => seq!['+'] + spec_enc_str(s),
    }
}

/// One snapshot line: the four fields of a presentation and a newline.
pub open spec fn spec_enc_pres(p: PresentationView) -> Seq<char> {
    spec_enc_opt(p.presenter.icon) + seq![' '] + spec_enc_opt(p.presenter.ident) + seq![' ']
        + spec_enc_str(p.presenter.name) + seq![' '] + spec_enc_str(p.title) + seq!['\n']
}

/// The snapshot lines for the entries from index `k` on, in queue order.
pub open spec fn spec_enc_entries_from(qs: Seq<PresentationView>, k: int) -> Seq<char>
    decreases qs.len() - k,
{
    if k < 0 || k >= qs.len() {
        Seq::empty()
    } else {
        spec_enc_pres(qs[k]) + spec_enc_entries_from(qs, k + 1)
    }
}

/// The whole snapshot: the entry count, a newline, then every line.
pub open spec fn spec_encode_snapshot(qs: Seq<PresentationView>) -> Seq<char> {
    spec_dec(qs.len()) + seq!['\n'] + spec_enc_entries_from(qs, 0)
}

fn append_enc_str(out: &mut String, s: &str)
    ensures
        final(out)@ =~= old(out)@ + spec_enc_str(s@),
{
    let len = s.unicode_len();
    let num = render_dec(len);
    out.append(num.as_str());
    out.append(":");
    out.append(s);
    proof {
        reveal_strlit(":");
        assert(":"@ =~= seq![':']);
    }
}

fn append_enc_opt(out: &mut String, o: &Option<String>)
    ensures
        final(out)@ =~= old(out)@ + spec_enc_opt(
            match o {
                Some(s) => Some(s@),
                None => None,
            },
        ),
{
    proof {
        reveal_strlit("-");
        reveal_strlit("+");
        assert("-"@ =~= seq!['-']);
        assert("+"@ =~= seq!['+']);
    }
    match o {
        None => out.append("-"),
        Some(s) => {
            out.append("+");
            append_enc_str(out, s.as_str());
        },
    }
}

fn append_enc_pres(out: &mut String, p: &Presentation)
    ensures
        final(out)@ =~= old(out)@ + spec_enc_pres(p@),
{
    proof {
        reveal_strlit(" ");
        reveal_strlit("\n");
        assert(" "@ =~= seq![' ']);
        assert("\n"@ =~= seq!['\n']);
    }
    append_enc_opt(out, &p.presenter.icon);
    out.append(" ");
    append_enc_opt(out, &p.presenter.ident);
    out.append(" ");
    append_enc_str(out, p.presenter.name.as_str());
    out.append(" ");
    append_enc_str(out, p.title.as_str());
    out.append("\n");
}

/// Renders the snapshot text for the whole queue.
pub fn encode_snapshot(q: &Presentations) -> (r: String)
    ensures
        r@ =~= spec_encode_snapshot(q@),
{
    let n = q.len();
    let mut out = String::new();
    let num = render_dec(n);
    out.append(num.as_str());
    out.append("\n");
    proof {
        reveal_strlit("\n");
        assert("\n"@ =~= seq!['\n']);
        assert(out@ + spec_enc_entries_from(q@, 0) =~= spec_encode_snapshot(q@));
    }
    let mut i: usize = 0;
    while i < n
        invariant
            0 <= i <= n,
            n == q@.len(),
            out@ + spec_enc_entries_from(q@, i as int) =~= spec_encode_snapshot(q@),
        decreases n - i,
    {
        let ghost prev = out@;
        append_enc_pres(&mut out, q.get(i));
        proof {
            assert(spec_enc_entries_from(q@, i as int) == spec_enc_pres(q@[i as int])
                + spec_enc_entries_from(q@, i + 1));
            assert(out@ + spec_enc_entries_from(q@, i + 1) =~= prev + spec_enc_entries_from(
                q@,
                i as int,
            ));
        }
        i = i + 1;
    }
    proof {
        assert(spec_enc_entries_from(q@, n as int) =~= Seq::<char>::empty());
        assert(out@ =~= out@ + spec_enc_entries_from(q@, n as int));
    }
    out
}

/// End of the digit run starting at `i`.
pub open spec fn spec_digits_end(s: Seq<char>, i: int) -> int {
    i + crate::parser::first_nondigit(s.skip(i)) as int
}

/// Parses a count or field length at `i`: the digit run there, when it
/// is nonempty and denotes a number a length can hold.
pub open spec fn spec_parse_count(s: Seq<char>, i: int) -> Option<(nat, int)> {
    let e = spec_digits_end(s, i);
    if e == i {
        None
    } else {
        let v = spec_dec_value(s.subrange(i, e));
        if v <= usize::MAX {
            Some((v, e))
        } else {
            None
        }
    }
}

/// Parses a `<length>:<characters>` field at `i`.
pub open spec fn spec_parse_field(s: Seq<char>, i: int) -> Option<(Seq<char>, int)> {
    match spec_parse_count(s, i) {
        None => None,
        Some((n, e)) => if e < s.len() && s[e] == ':' && e + 1 + n <= s.len() {
            Some((s.subrange(e + 1, e + 1 + n), e + 1 + n))
        } else {
            None
        },
    }
}

/// Parses an optional field at `i`: `-` or `+<length>:<characters>`.
pub open spec fn spec_parse_opt_field(s: Seq<char>, i: int) -> Option<(Option<Seq<char>>, int)> {
    if i < s.len() && s[i] == '-' {
        Some((None, i + 1))
    } else if i < s.len() && s[i] == '+' {
        match spec_parse_field(s, i + 1) {
            None => None,
            Some((f, j)) => Some((Some(f), j)),
        }
    } else {
        None
    }
}

/// Parses one snapshot line at `i`.
pub open spec fn spec_parse_entry(s: Seq<char>, i: int) -> Option<(PresentationView, int)> {
    match spec_parse_opt_field(s, i) {
        None => None,
        Some((icon, j1)) => if j1 < s.len() && s[j1] == ' ' {
            match spec_parse_opt_field(s, j1 + 1) {
                None => None,
                Some((ident, j2)) => if j2 < s.len() && s[j2] == ' ' {
                    match spec_parse_field(s, j2 + 1) {
                        None => None,
                        Some((name, j3)) => if j3 < s.len() && s[j3] == ' ' {
                            match spec_parse_field(s, j3 + 1) {
                                None => None,
                                Some((title, j4)) => if j4 < s.len() && s[j4] == '\n' {
                                    Some(
                                        (
                                            PresentationView {
                                                presenter: UserView { icon, ident, name },
                                                title,
                                            },
                                            j4 + 1,
                                        ),
                                    )
                                } else {
                                    None
                                },
                            }
                        } else {
                            None
                        },
                    }
                } else {
                    None
                },
            }
        } else {
            None
        },
    }
}

/// Parses `count` snapshot lines starting at `i`.
pub open spec fn spec_parse_entries(s: Seq<char>, i: int, count: nat) -> Option<
    (Seq<PresentationView>, int),
>
    decreases count,
{
    if count == 0 {
        Some((Seq::empty(), i))
    } else {
        match spec_parse_entry(s, i) {
            None => None,
            Some((p, j)) => match spec_parse_entries(s, j, (count - 1) as nat) {
                None => None,
                Some((ps, k)) => Some((seq![p] + ps, k)),
            },
        }
    }
}

/// Parses a whole snapshot text: the count line, exactly that many
/// entry lines, and nothing after them.
pub open spec fn spec_parse_snapshot(s: Seq<char>) -> Option<Seq<PresentationView>> {
    match spec_parse_count(s, 0) {
        None => None,
        Some((n, e)) => if e < s.len() && s[e] == '\n' {
            match spec_parse_entries(s, e + 1, n) {
                None => None,
                Some((ps, k)) => if k == s.len() {
                    Some(ps)
                } else {
                    None
                },
            }
        } else {
            None
        },
    }
}

/// Every length in the queue fits in a machine length: the entry count
/// and each text field.
pub open spec fn snapshot_bounded(qs: Seq<PresentationView>) -> bool {
    &&& qs.len() <= usize::MAX
    &&& forall|k: int|
        0 <= k < qs.len() ==> {
            &&& (#[trigger] qs[k]).title.len() <= usize::MAX
            &&& qs[k].presenter.name.len() <= usize::MAX
            &&& (qs[k].presenter.icon is Some ==> qs[k].presenter.icon->0.len() <= usize::MAX)
            &&& (qs[k].presenter.ident is Some ==> qs[k].presenter.ident->0.len() <= usize::MAX)
        }
}

proof fn lemma_digits_end_at(s: Seq<char>, i: int, k: int)
    requires
        0 <= i <= k <= s.len(),
        forall|j: int| i <= j < k ==> crate::textutil::is_dec_digit(s[j]),
        k < s.len() ==> !crate::textutil::is_dec_digit(s[k]),
    ensures
        spec_digits_end(s, i) == k,
{
    let t = s.skip(i);
    assert(forall|j: int| 0 <= j < k - i ==> crate::textutil::is_dec_digit(#[trigger] t[j])) by {
        assert(forall|j: int| 0 <= j < k - i ==> t[j] == s[j + i]);
    }
    if k < s.len() {
        assert(t[k - i] == s[k]);
    }
    crate::parser::lemma_first_nondigit_at(t, k - i);
}

proof fn lemma_parse_count_of_enc(s: Seq<char>, i: int, n: nat)
    requires
        n <= usize::MAX,
        0 <= i,
        i + spec_dec(n).len() <= s.len(),
        s.subrange(i, i + spec_dec(n).len()) == spec_dec(n),
        i + spec_dec(n).len() < s.len() ==> !crate::textutil::is_dec_digit(
            s[i + spec_dec(n).len()],
        ),
    ensures
        spec_parse_count(s, i) == Some((n, i + spec_dec(n).len() as int)),
{
    let d = spec_dec(n);
    let k = i + d.len() as int;
    crate::textutil::lemma_spec_dec_digits(n);
    assert(forall|j: int| i <= j < k ==> crate::textutil::is_dec_digit(#[trigger] s[j])) by {
        assert(forall|j: int| 0 <= j < d.len() ==> crate::textutil::is_dec_digit(#[trigger] d[j]));
        assert(forall|j: int| i <= j < k ==> #[trigger] s[j] == s.subrange(i, k)[j - i]);
    }
    lemma_digits_end_at(s, i, k);
    crate::textutil::lemma_spec_dec_value(n);
    assert(s.subrange(i, k) == d);
    assert(spec_dec_value(s.subrange(i, k)) == n);
}

proof fn lemma_parse_field_of_enc(s: Seq<char>, i: int, f: Seq<char>)
    requires
        f.len() <= usize::MAX,
        0 <= i,
        i + spec_enc_str(f).len() <= s.len(),
        s.subrange(i, i + spec_enc_str(f).len()) == spec_enc_str(f),
    ensures
        spec_parse_field(s, i) == Some((f, i + spec_enc_str(f).len() as int)),
{
    let d = spec_dec(f.len());
    let enc = spec_enc_str(f);
    let dl = d.len() as int;
    let ll = enc.len() as int;
    assert(enc == d + seq![':'] + f);
    assert(enc.len() == d.len() + 1 + f.len());
    let e = i + dl;
    let sub = s.subrange(i, i + ll);
    assert(s.subrange(i, e) =~= sub.subrange(0, dl));
    assert(enc.subrange(0, dl) =~= d);
    assert(s.subrange(i, e) == d);
    assert(s[e] == sub[dl]);
    assert(enc[dl] == ':');
    assert((':' as u32) == 58);
    assert(!crate::textutil::is_dec_digit(':'));
    lemma_parse_count_of_enc(s, i, f.len());
    assert(spec_parse_count(s, i) == Some((f.len(), e)));
    assert(e + 1 + f.len() == i + enc.len());
    assert(s.subrange(e + 1, e + 1 + f.len()) =~= sub.subrange(dl + 1, ll));
    assert(enc.subrange(dl + 1, ll) =~= f);
}

proof fn lemma_parse_opt_of_enc(s: Seq<char>, i: int, o: Option<Seq<char>>)
    requires
        o is Some ==> o->0.len() <= usize::MAX,
        0 <= i,
        i + spec_enc_opt(o).len() <= s.len(),
        s.subrange(i, i + spec_enc_opt(o).len()) == spec_enc_opt(o),
    ensures
        spec_parse_opt_field(s, i) == Some((o, i + spec_enc_opt(o).len() as int)),
{
    let enc = spec_enc_opt(o);
    match o {
        None => {
            assert(s[i] == enc[0]);
            assert(enc[0] == '-');
        },
        Some(f) => {
            let body = spec_enc_str(f);
            let ll = enc.len() as int;
            let sub = s.subrange(i, i + ll);
            assert(enc == seq!['+'] + body);
            assert(s[i] == sub[0]);
            assert(enc[0] == '+');
            assert(s.subrange(i + 1, i + 1 + body.len()) =~= sub.subrange(1, ll));
            assert(enc.subrange(1, ll) =~= body);
            lemma_parse_field_of_enc(s, i + 1, f);
        },
    }
}

#[verifier::rlimit(50)]
proof fn lemma_parse_entry_of_enc(s: Seq<char>, i: int, p: PresentationView)
    requires
        p.title.len() <= usize::MAX,
        p.presenter.name.len() <= usize::MAX,
        p.presenter.icon is Some ==> p.presenter.icon->0.len() <= usize::MAX,
        p.presenter.ident is Some ==> p.presenter.ident->0.len() <= usize::MAX,
        0 <= i,
        i + spec_enc_pres(p).len() <= s.len(),
        s.subrange(i, i + spec_enc_pres(p).len()) == spec_enc_pres(p),
    ensures
        spec_parse_entry(s, i) == Some((p, i + spec_enc_pres(p).len() as int)),
{
    let a = spec_enc_opt(p.presenter.icon);
    let b = spec_enc_opt(p.presenter.ident);
    let c = spec_enc_str(p.presenter.name);
    let d = spec_enc_str(p.title);
    let enc = spec_enc_pres(p);
    let ll = enc.len() as int;
    let sub = s.subrange(i, i + ll);
    assert(enc == a + seq![' '] + b + seq![' '] + c + seq![' '] + d + seq!['\n']);
    let al = a.len() as int;
    let bl = b.len() as int;
    let cl = c.len() as int;
    let dl = d.len() as int;
    let p1 = i + al;
    let p2 = p1 + 1;
    let p3 = p2 + bl;
    let p4 = p3 + 1;
    let p5 = p4 + cl;
    let p6 = p5 + 1;
    let p7 = p6 + dl;
    assert(ll == al + 1 + bl + 1 + cl + 1 + dl + 1);

    assert(s.subrange(i, p1) =~= sub.subrange(0, al));
    assert(enc.subrange(0, al) =~= a);
    lemma_parse_opt_of_enc(s, i, p.presenter.icon);
    assert(spec_parse_opt_field(s, i) == Some((p.presenter.icon, p1)));

    assert(s[p1] == sub[al]);
    assert(enc[al] == ' ');

    assert(s.subrange(p2, p3) =~= sub.subrange(al + 1, al + 1 + bl));
    assert(enc.subrange(al + 1, al + 1 + bl) =~= b);
    lemma_parse_opt_of_enc(s, p2, p.presenter.ident);
    assert(spec_parse_opt_field(s, p2) == Some((p.presenter.ident, p3)));

    assert(s[p3] == sub[al + 1 + bl]);
    assert(enc[al + 1 + bl] == ' ');

    assert(s.subrange(p4, p5) =~= sub.subrange(al + 1 + bl + 1, al + 1 + bl + 1 + cl));
    assert(enc.subrange(al + 1 + bl + 1, al + 1 + bl + 1 + cl) =~= c);
    lemma_parse_field_of_enc(s, p4, p.presenter.name);
    assert(spec_parse_field(s, p4) == Some((p.presenter.name, p5)));

    assert(s[p5] == sub[al + 1 + bl + 1 + cl]);
    assert(enc[al + 1 + bl + 1 + cl] == ' ');

    assert(s.subrange(p6, p7) =~= sub.subrange(al + 1 + bl + 1 + cl + 1, al + 1 + bl + 1 + cl + 1
        + dl));
    assert(enc.subrange(al + 1 + bl + 1 + cl + 1, al + 1 + bl + 1 + cl + 1 + dl) =~= d);
    lemma_parse_field_of_enc(s, p6, p.title);
    assert(spec_parse_field(s, p6) == Some((p.title, p7)));

    assert(s[p7] == sub[al + 1 + bl + 1 + cl + 1 + dl]);
    assert(enc[al + 1 + bl + 1 + cl + 1 + dl] == '\n');

    assert(PresentationView {
        presenter: UserView {
            icon: p.presenter.icon,
            ident: p.presenter.ident,
            name: p.presenter.name,
        },
        title: p.title,
    } =~= p);
}

proof fn lemma_parse_entries_of_enc(s: Seq<char>, i: int, qs: Seq<PresentationView>, k: int)
    requires
        snapshot_bounded(qs),
        0 <= k <= qs.len(),
        0 <= i,
        i + spec_enc_entries_from(qs, k).len() <= s.len(),
        s.subrange(i, i + spec_enc_entries_from(qs, k).len()) == spec_enc_entries_from(qs, k),
    ensures
        spec_parse_entries(s, i, (qs.len() - k) as nat) == Some(
            (qs.skip(k), i + spec_enc_entries_from(qs, k).len() as int),
        ),
    decreases qs.len() - k,
{
    if k == qs.len() {
        assert(qs.skip(k) =~= Seq::<PresentationView>::empty());
    } else {
        let head = spec_enc_pres(qs[k]);
        let rest = spec_enc_entries_from(qs, k + 1);
        let enc = spec_enc_entries_from(qs, k);
        assert(enc == head + rest);
        let hl = head.len() as int;
        let ll = enc.len() as int;
        let sub = s.subrange(i, i + ll);
        assert(s.subrange(i, i + hl) =~= sub.subrange(0, hl));
        assert(enc.subrange(0, hl) =~= head);
        lemma_parse_entry_of_enc(s, i, qs[k]);
        let j = i + hl;
        assert(s.subrange(j, j + rest.len()) =~= sub.subrange(hl, ll));
        assert(enc.subrange(hl, ll) =~= rest);
        lemma_parse_entries_of_enc(s, j, qs, k + 1);
        assert(spec_parse_entries(s, j, (qs.len() - (k + 1)) as nat) == Some(
            (qs.skip(k + 1), j + rest.len() as int),
        ));
        let count = (qs.len() - k) as nat;
        assert(count > 0);
        assert((count - 1) as nat == (qs.len() - (k + 1)) as nat);
        assert(seq![qs[k]] + qs.skip(k + 1) =~= qs.skip(k));
    }
}

/// Loading a snapshot text written for a queue yields exactly that
/// queue: the snapshot format round-trips.
pub proof fn lemma_snapshot_roundtrip(qs: Seq<PresentationView>)
    requires
        snapshot_bounded(qs),
    ensures
        spec_parse_snapshot(spec_encode_snapshot(qs)) == Some(qs),
{
    let s = spec_encode_snapshot(qs);
    let d = spec_dec(qs.len());
    let dl = d.len() as int;
    let entries = spec_enc_entries_from(qs, 0);
    assert(s == d + seq!['\n'] + entries);
    assert(s.subrange(0, dl) =~= d);
    assert(s[dl] == '\n');
    assert(('\n' as u32) == 10);
    assert(!crate::textutil::is_dec_digit('\n'));
    lemma_parse_count_of_enc(s, 0, qs.len());
    assert(spec_parse_count(s, 0) == Some((qs.len(), dl)));
    assert(s.subrange(dl + 1, dl + 1 + entries.len()) =~= entries);
    lemma_parse_entries_of_enc(s, dl + 1, qs, 0);
    assert(spec_parse_entries(s, dl + 1, qs.len()) == Some(
        (qs.skip(0), dl + 1 + entries.len() as int),
    ));
    assert(dl + 1 + entries.len() == s.len());
    assert(qs.skip(0) =~= qs);
}

fn parse_count_at(s: &str, i: usize) -> (r: Option<(usize, usize)>)
    requires
        i <= s@.len(),
    ensures
        match r {
            Some((n, e)) => spec_parse_count(s@, i as int) == Some((n as nat, e as int)) && i <= e
                <= s@.len(),
            None => spec_parse_count(s@, i as int) is None,
        },
{
    let e = crate::parser::find_nondigit_from(s, i);
    proof {
        lemma_digits_end_at(s@, i as int, e as int);
    }
    if e == i {
        return None;
    }
    let ghost digits = s@.subrange(i as int, e as int);
    let mut acc: u128 = 0;
    let mut j: usize = i;
    while j < e
        invariant
            i < e,
            i <= j <= e <= s@.len(),
            spec_digits_end(s@, i as int) == e,
            forall|m: int| i <= m < e ==> crate::textutil::is_dec_digit(s@[m]),
            digits == s@.subrange(i as int, e as int),
            acc == spec_dec_value(digits.take(j - i)),
            acc <= usize::MAX,
        decreases e - j,
    {
        let c = s.get_char(j);
        let cv = c as u32;
        proof {
            assert(s@[j as int] == digits[j - i]);
            assert(crate::textutil::is_dec_digit(digits[j - i]));
        }
        let d: u128 = (cv - 48) as u128;
        let next: u128 = acc * 10 + d;
        proof {
            assert(digits.take(j - i + 1).take(j - i) =~= digits.take(j - i));
            assert(digits.take(j - i + 1)[j - i] == digits[j - i]);
        }
        if next > usize::MAX as u128 {
            proof {
                crate::textutil::lemma_dec_value_mono_pub(digits, j - i + 1, digits.len() as int);
                assert(digits.take(digits.len() as int) =~= digits);
            }
            return None;
        }
        acc = next;
        j = j + 1;
    }
    proof {
        assert(digits.take(e - i) =~= digits);
    }
    Some((acc as usize, e))
}

fn parse_field_at(s: &str, i: usize) -> (r: Option<(String, usize)>)
    requires
        i <= s@.len(),
    ensures
        match r {
            Some(fj) => spec_parse_field(s@, i as int) == Some((fj.0@, fj.1 as int)) && i <= fj.1
                <= s@.len(),
            None => spec_parse_field(s@, i as int) is None,
        },
{
    let len = s.unicode_len();
    match parse_count_at(s, i) {
        None => None,
        Some((n, e)) => {
            if e < len && s.get_char(e) == ':' {
                if n <= len - (e + 1) {
                    let content = s.substring_char(e + 1, e + 1 + n);
                    proof {
                        assert(content@ =~= s@.subrange(e + 1, e + 1 + n));
                    }
                    Some((String::from_str(content), e + 1 + n))
                } else {
                    None
                }
            } else {
                None
            }
        },
    }
}

fn parse_opt_at(s: &str, i: usize) -> (r: Option<(Option<String>, usize)>)
    requires
        i <= s@.len(),
    ensures
        match r {
            Some(oj) => spec_parse_opt_field(s@, i as int) == Some(
                (
                    match oj.0 {
                        Some(f) => Some(f@),
                        None => None,
                    },
                    oj.1 as int,
                ),
            ) && i <= oj.1 <= s@.len(),
            None => spec_parse_opt_field(s@, i as int) is None,
        },
{
    let len = s.unicode_len();
    if i < len && s.get_char(i) == '-' {
        Some((None, i + 1))
    } else if i < len && s.get_char(i) == '+' {
        match parse_field_at(s, i + 1) {
            None => None,
            Some((f, j)) => Some((Some(f), j)),
        }
    } else {
        None
    }
}

fn parse_entry_at(s: &str, i: usize) -> (r: Option<(Presentation, usize)>)
    requires
        i <= s@.len(),
    ensures
        match r {
            Some(pj) => spec_parse_entry(s@, i as int) == Some((pj.0@, pj.1 as int)) && i <= pj.1
                <= s@.len(),
            None => spec_parse_entry(s@, i as int) is None,
        },
{
    let len = s.unicode_len();
    let (icon, j1) = match parse_opt_at(s, i) {
        None => {
            return None;
        },
        Some(x) => x,
    };
    if !(j1 < len && s.get_char(j1) == ' ') {
        return None;
    }
    let (ident, j2) = match parse_opt_at(s, j1 + 1) {
        None => {
            return None;
        },
        Some(x) => x,
    };
    if !(j2 < len && s.get_char(j2) == ' ') {
        return None;
    }
    let (name, j3) = match parse_field_at(s, j2 + 1) {
        None => {
            return None;
        },
        Some(x) => x,
    };
    if !(j3 < len && s.get_char(j3) == ' ') {
        return None;
    }
    let (title, j4) = match parse_field_at(s, j3 + 1) {
        None => {
            return None;
        },
        Some(x) => x,
    };
    if !(j4 < len && s.get_char(j4) == '\n') {
        return None;
    }
    let p = Presentation { presenter: User { icon, ident, name }, title };
    Some((p, j4 + 1))
}

/// Lifts a parsed tail by a prefix of already-parsed entries.
spec fn with_prefix(
    prefix: Seq<PresentationView>,
    rest: Option<(Seq<PresentationView>, int)>,
) -> Option<(Seq<PresentationView>, int)> {
    match rest {
        None => None,
        Some((ps, j)) => Some((prefix + ps, j)),
    }
}

/// Parses a whole snapshot text back into the queue entries it was
/// written for; `None` when the text is not a snapshot (a malformed
/// file is a startup error for the caller, never a silently empty
/// queue).
pub fn parse_snapshot(s: &str) -> (r: Option<Vec<Presentation>>)
    ensures
        match r {
            Some(v) => spec_parse_snapshot(s@) == Some(v.deep_view()),
            None => spec_parse_snapshot(s@) is None,
        },
{
    let len = s.unicode_len();
    let (n, e) = match parse_count_at(s, 0) {
        None => {
            return None;
        },
        Some(x) => x,
    };
    if !(e < len && s.get_char(e) == '\n') {
        return None;
    }
    let start = e + 1;
    let mut acc: Vec<Presentation> = Vec::new();
    let mut pos: usize = start;
    let mut k: usize = 0;
    proof {
        assert(acc.deep_view() =~= Seq::<PresentationView>::empty());
        assert(acc.deep_view() + (spec_parse_entries(s@, start as int, n as nat)->0).0
            =~= (spec_parse_entries(s@, start as int, n as nat)->0).0);
    }
    while k < n
        invariant
            0 <= k <= n,
            start <= pos <= s@.len(),
            len == s@.len(),
            spec_parse_count(s@, 0) == Some((n as nat, e as int)),
            e < s@.len(),
            s@[e as int] == '\n',
            start == e + 1,
            acc.deep_view().len() == k,
            spec_parse_entries(s@, start as int, n as nat) == with_prefix(
                acc.deep_view(),
                spec_parse_entries(s@, pos as int, (n - k) as nat),
            ),
        decreases n - k,
    {
        let (p, j) = match parse_entry_at(s, pos) {
            None => {
                proof {
                    assert(spec_parse_entries(s@, pos as int, (n - k) as nat) is None);
                }
                return None;
            },
            Some(x) => x,
        };
        let ghost old_acc = acc.deep_view();
        let ghost pv = p@;
        acc.push(p);
        proof {
            assert(acc.deep_view() =~= old_acc.push(pv));
            let c = (n - k) as nat;
            assert(spec_parse_entries(s@, pos as int, c) == (match spec_parse_entries(
                s@,
                j as int,
                (c - 1) as nat,
            ) {
                None => None,
                Some((ps, kk)) => Some((seq![pv] + ps, kk)),
            }));
            let rest = spec_parse_entries(s@, j as int, (n - (k + 1)) as nat);
            if rest is Some {
                let ps = (rest->0).0;
                assert(old_acc + (seq![pv] + ps) =~= old_acc.push(pv) + ps);
            }
        }
        pos = j;
        k = k + 1;
    }
    proof {
        assert(spec_parse_entries(s@, pos as int, 0) == Some(
            (Seq::<PresentationView>::empty(), pos as int),
        ));
        assert(acc.deep_view() + Seq::<PresentationView>::empty() =~= acc.deep_view());
        assert(spec_parse_entries(s@, start as int, n as nat) == Some(
            (acc.deep_view(), pos as int),
        ));
    }
    if pos == len {
        Some(acc)
    } else {
        None
    }
}

} // verus!
