//! Character and string utilities shared by the extractors: equality on
//! string slices, decimal parsing and formatting, whitespace tokenisation,
//! and path-segment handling.
use vstd::prelude::*;
use vstd::string::*;

verus! {

/// Appends one character to a string.
///
/// Relies on `String::push`: pushes the given character onto the end of the
/// string.
#[verifier::external_body]
pub fn push_char(s: &mut String, c: char)
    ensures
        final(s)@ == old(s)@.push(c),
{
    s.push(c)
}

/// Character-for-character equality of two string slices.
pub fn str_eq(a: &str, b: &str) -> (r: bool)
    ensures
        r == (a@ == b@),
{
    let an: usize = a.unicode_len();
    let bn: usize = b.unicode_len();
    if an != bn {
        return false;
    }
    let mut i: usize = 0;
    while i < an
        invariant
            an == a@.len(),
            an == b@.len(),
            i <= an,
            forall|j: int| 0 <= j < i ==> a@[j] == b@[j],
        decreases an - i,
    {
        let ca = a.get_char(i);
        let cb = b.get_char(i);
        if ca != cb {
            return false;
        }
        i += 1;
    }
    proof {
        assert(a@ =~= b@);
    }
    true
}

/// A decimal digit.
pub open spec fn is_digit(c: char) -> bool {
    48 <= c as int <= 57
}

/// The numeric value of a decimal digit.
pub open spec fn digit_val(c: char) -> int {
    c as int - 48
}

/// The character for a single decimal digit value.
pub open spec fn digit_char(d: int) -> char {
    ((d + 48) as u8) as char
}

/// Every character of `s` is a decimal digit.
pub open spec fn all_digits(s: Seq<char>) -> bool {
    forall|i: int| 0 <= i < s.len() ==> is_digit(#[trigger] s[i])
}

/// The value of a digit string, most significant digit first.
pub open spec fn dec_val(s: Seq<char>) -> int
    decreases s.len(),
{
    if s.len() == 0 {
        0
    } else {
        dec_val(s.drop_last()) * 10 + digit_val(s.last())
    }
}

/// The strings accepted as a non-negative integer: non-empty, digits only,
/// and a value that fits the machine's word.
pub open spec fn parses_to_usize(s: Seq<char>) -> bool {
    s.len() > 0 && all_digits(s) && dec_val(s) <= usize::MAX
}

proof fn lemma_dec_val_nonneg(s: Seq<char>)
    requires
        all_digits(s),
    ensures
        dec_val(s) >= 0,
    decreases s.len(),
{
    if s.len() > 0 {
        assert(all_digits(s.drop_last()));
        lemma_dec_val_nonneg(s.drop_last());
    }
}

proof fn lemma_dec_val_mono(s: Seq<char>, i: int, j: int)
    requires
        0 <= i <= j <= s.len(),
        all_digits(s.take(j)),
    ensures
        dec_val(s.take(i)) <= dec_val(s.take(j)),
    decreases j - i,
{
    if i < j {
        assert(all_digits(s.take(j - 1))) by {
            assert(forall|k: int| 0 <= k < j - 1 ==> s.take(j - 1)[k] == s.take(j)[k]);
        }
        lemma_dec_val_mono(s, i, j - 1);
        lemma_dec_val_nonneg(s.take(j - 1));
        assert(s.take(j).drop_last() =~= s.take(j - 1));
        assert(is_digit(s.take(j)[j - 1]));
    }
}

/// Parses a non-negative decimal integer, returning `None` on an empty
/// string, a non-digit character, or overflow.
pub fn parse_usize(s: &str) -> (r: Option<usize>)
    ensures
        r is Some <==> parses_to_usize(s@),
        r matches Some(v) ==> v == dec_val(s@),
{
    let n: usize = s.unicode_len();
    if n == 0 {
        return None;
    }
    let mut acc: usize = 0;
    let mut i: usize = 0;
    while i < n
        invariant
            n == s@.len(),
            i <= n,
            all_digits(s@.take(i as int)),
            acc == dec_val(s@.take(i as int)),
        decreases n - i,
    {
        let c = s.get_char(i);
        let cv = c as u32;
        if cv < 48 || cv > 57 {
            assert(!is_digit(s@[i as int]));
            return None;
        }
        let d: usize = (cv - 48) as usize;
        proof {
            assert(s@.take(i + 1).drop_last() =~= s@.take(i as int));
            assert(s@.take(i + 1).last() == s@[i as int]);
        }
        let next = match acc.checked_mul(10) {
            Some(x) => x.checked_add(d),
            None => None,
        };
        match next {
            Some(x) => {
                acc = x;
            },
            None => {
                proof {
                    assert(dec_val(s@.take(i + 1)) > usize::MAX);
                    if parses_to_usize(s@) {
                        lemma_dec_val_mono(s@, i + 1, s@.len() as int);
                        assert(s@.take(s@.len() as int) =~= s@);
                    }
                }
                return None;
            },
        }
        i += 1;
    }
    proof {
        assert(s@.take(n as int) =~= s@);
        lemma_dec_val_nonneg(s@);
    }
    Some(acc)
}

/// The decimal rendering of a non-negative integer, most significant digit
/// first, with no leading zeros (a single `'0'` for zero).
pub open spec fn dec_str(n: int) -> Seq<char>
    decreases n,
{
    if n < 10 {
        seq![digit_char(n)]
    } else {
        dec_str(n / 10).push(digit_char(n % 10))
    }
}

/// An ASCII whitespace character, as class lists are split on.
pub open spec fn is_space(c: char) -> bool {
    c == ' ' || c == '\t' || c == '\n' || c == '\r' || c == '\x0c'
}

/// The run of non-whitespace characters at the front of `s`.
pub open spec fn token_run(s: Seq<char>) -> Seq<char>
    decreases s.len(),
{
    if s.len() == 0 || is_space(s[0]) {
        Seq::empty()
    } else {
        seq![s[0]] + token_run(s.drop_first())
    }
}

/// The first whitespace-separated token of `s`, if any.
pub open spec fn first_token(s: Seq<char>) -> Option<Seq<char>>
    decreases s.len(),
{
    if s.len() == 0 {
        None
    } else if is_space(s[0]) {
        first_token(s.drop_first())
    } else {
        Some(token_run(s))
    }
}

proof fn lemma_token_run_bounds(s: Seq<char>, j: int)
    requires
        0 <= j <= s.len(),
        forall|k: int| 0 <= k < j ==> !is_space(#[trigger] s[k]),
        j == s.len() || is_space(s[j]),
    ensures
        token_run(s) == s.take(j),
    decreases s.len(),
{
    if s.len() == 0 {
        assert(token_run(s) =~= s.take(j));
    } else if j == 0 {
        assert(is_space(s[0]));
        assert(token_run(s) =~= s.take(0));
    } else {
        assert(!is_space(s[0]));
        let rest = s.drop_first();
        assert(forall|k: int| 0 <= k < j - 1 ==> !is_space(#[trigger] rest[k]));
        assert(j - 1 == rest.len() || is_space(rest[j - 1]));
        lemma_token_run_bounds(rest, j - 1);
        assert(seq![s[0]] + rest.take(j - 1) =~= s.take(j));
    }
}

/// Extracts the first whitespace-separated token of a string.
pub fn first_token_str(s: &str) -> (r: Option<String>)
    ensures
        r matches Some(t) ==> first_token(s@) == Some(t@),
        r is None ==> first_token(s@) is None,
{
    let n: usize = s.unicode_len();
    proof {
        assert(s@.skip(0) =~= s@);
    }
    let mut i: usize = 0;
    while i < n
        invariant
            n == s@.len(),
            i <= n,
            first_token(s@) == first_token(s@.skip(i as int)),
        decreases n - i,
    {
        let c = s.get_char(i);
        proof {
            assert(s@.skip(i as int)[0] == s@[i as int]);
        }
        if !(c == ' ' || c == '\t' || c == '\n' || c == '\r' || c == '\x0c') {
            let ghost run = s@.skip(i as int);
            let mut j: usize = i + 1;
            while j < n
                invariant
                    n == s@.len(),
                    i < j <= n,
                    run == s@.skip(i as int),
                    first_token(s@) == first_token(run),
                    forall|k: int| i <= k < j ==> !is_space(#[trigger] s@[k]),
                decreases n - j,
            {
                let c2 = s.get_char(j);
                if c2 == ' ' || c2 == '\t' || c2 == '\n' || c2 == '\r' || c2 == '\x0c' {
                    proof {
                        assert(forall|k: int| 0 <= k < run.len() ==> #[trigger] run[k] == s@[i
                            + k]);
                        assert(forall|k: int| 0 <= k < j - i ==> !is_space(#[trigger] run[k]));
                        assert(is_space(run[j - i]));
                        assert(!is_space(run[0]));
                        assert(first_token(run) == Some(token_run(run)));
                        lemma_token_run_bounds(run, j - i);
                        assert(run.take(j - i) =~= s@.subrange(i as int, j as int));
                    }
                    return Some(s.substring_char(i, j).to_owned());
                }
                j += 1;
            }
            proof {
                assert(forall|k: int| 0 <= k < run.len() ==> #[trigger] run[k] == s@[i + k]);
                assert(forall|k: int| 0 <= k < run.len() ==> !is_space(#[trigger] run[k]));
                assert(!is_space(run[0]));
                assert(first_token(run) == Some(token_run(run)));
                lemma_token_run_bounds(run, run.len() as int);
                assert(run.take(run.len() as int) =~= s@.subrange(i as int, n as int));
            }
            return Some(s.substring_char(i, n).to_owned());
        }
        proof {
            assert(s@.skip(i as int).drop_first() =~= s@.skip(i + 1));
        }
        i += 1;
    }
    proof {
        assert(s@.skip(n as int) =~= Seq::<char>::empty());
    }
    None
}

/// The suffix of `s` after its last `/`, or all of `s` when it has none.
pub open spec fn last_segment(s: Seq<char>) -> Seq<char>
    decreases s.len(),
{
    if s.len() == 0 {
        s
    } else if s.last() == '/' {
        Seq::empty()
    } else {
        last_segment(s.drop_last()) + seq![s.last()]
    }
}

proof fn lemma_last_segment_after(s: Seq<char>, p: int)
    requires
        0 <= p < s.len(),
        s[p] == '/',
        forall|k: int| p < k < s.len() ==> s[k] != '/',
    ensures
        last_segment(s) == s.skip(p + 1),
    decreases s.len(),
{
    if p == s.len() - 1 {
        assert(last_segment(s) =~= s.skip(p + 1));
    } else {
        assert(s.last() != '/');
        let rest = s.drop_last();
        assert(forall|k: int| p < k < rest.len() ==> rest[k] != '/');
        lemma_last_segment_after(rest, p);
        assert(rest.skip(p + 1) + seq![s.last()] =~= s.skip(p + 1));
    }
}

proof fn lemma_last_segment_whole(s: Seq<char>)
    requires
        forall|k: int| 0 <= k < s.len() ==> s[k] != '/',
    ensures
        last_segment(s) == s,
    decreases s.len(),
{
    if s.len() > 0 {
        lemma_last_segment_whole(s.drop_last());
        assert(s.drop_last() + seq![s.last()] =~= s);
    } else {
        assert(last_segment(s) =~= s);
    }
}

/// The part of a path after its final slash.
pub fn last_path_segment(s: &str) -> (r: String)
    ensures
        r@ == last_segment(s@),
{
    let n: usize = s.unicode_len();
    let mut cut: usize = 0;
    let mut has: bool = false;
    let mut i: usize = 0;
    while i < n
        invariant
            n == s@.len(),
            i <= n,
            has ==> 1 <= cut <= i && s@[cut - 1] == '/' && (forall|k: int|
                cut <= k < i ==> s@[k] != '/'),
            (!has) ==> cut == 0 && (forall|k: int| 0 <= k < i ==> s@[k] != '/'),
        decreases n - i,
    {
        if s.get_char(i) == '/' {
            cut = i + 1;
            has = true;
        }
        i += 1;
    }
    let seg = s.substring_char(cut, n).to_owned();
    proof {
        if has {
            lemma_last_segment_after(s@, cut - 1);
        } else {
            lemma_last_segment_whole(s@);
        }
        assert(s@.subrange(cut as int, n as int) =~= s@.skip(cut as int));
    }
    seg
}

/// All text nodes of a sequence joined in order.
pub open spec fn concat_all(ts: Seq<Seq<char>>) -> Seq<char>
    decreases ts.len(),
{
    if ts.len() == 0 {
        Seq::empty()
    } else {
        concat_all(ts.drop_last()) + ts.last()
    }
}

/// All text nodes but the first joined in order: the document-order text of
/// a node whose first child is a label to be skipped.
pub open spec fn tail_concat(ts: Seq<Seq<char>>) -> Seq<char> {
    if ts.len() == 0 {
        Seq::empty()
    } else {
        concat_all(ts.drop_first())
    }
}

/// Joins every text node but the first.
pub fn join_skip_first(texts: &Vec<String>) -> (r: String)
    ensures
        r@ == tail_concat(texts@.map_values(|t: String| t@)),
{
    let ghost view = texts@.map_values(|t: String| t@);
    let mut out = String::new();
    if texts.len() == 0 {
        return out;
    }
    let ghost tview = view.drop_first();
    proof {
        assert(tview.take(0) =~= Seq::<Seq<char>>::empty());
    }
    let mut i: usize = 1;
    while i < texts.len()
        invariant
            1 <= i <= texts.len(),
            view == texts@.map_values(|t: String| t@),
            tview == view.drop_first(),
            out@ == concat_all(tview.take(i - 1)),
        decreases texts.len() - i,
    {
        out.append(texts[i].as_str());
        proof {
            assert(tview.take(i as int).drop_last() =~= tview.take(i - 1));
            assert(tview.take(i as int).last() == view[i as int]);
        }
        i += 1;
    }
    proof {
        assert(tview.take(texts@.len() - 1) =~= tview);
    }
    out
}

/// The slug characters: a space becomes a dash, letters are lowered, digits
/// are kept, anything else is dropped.
pub open spec fn slug_char(c: char) -> Option<char> {
    if c == ' ' {
        Some('-')
    } else if 97 <= c as int <= 122 || 48 <= c as int <= 57 {
        Some(c)
    } else if 65 <= c as int <= 90 {
        Some(((c as int + 32) as u8) as char)
    } else {
        None
    }
}

/// The slug form of a title, character by character.
pub open spec fn slug_of(s: Seq<char>) -> Seq<char>
    decreases s.len(),
{
    if s.len() == 0 {
        Seq::empty()
    } else {
        slug_of(s.drop_last()) + (match slug_char(s.last()) {
            Some(c) => seq![c],
            None => Seq::<char>::empty(),
        })
    }
}

/// Turns a title into the slug used in catalog paths.
pub fn slugify(s: &str) -> (r: String)
    ensures
        r@ == slug_of(s@),
{
    let n: usize = s.unicode_len();
    let mut out = String::new();
    proof {
        assert(s@.take(0) =~= Seq::<char>::empty());
    }
    let mut i: usize = 0;
    while i < n
        invariant
            n == s@.len(),
            i <= n,
            out@ == slug_of(s@.take(i as int)),
        decreases n - i,
    {
        let c = s.get_char(i);
        let cv = c as u32;
        proof {
            assert(s@.take(i + 1).drop_last() =~= s@.take(i as int));
            assert(s@.take(i + 1).last() == s@[i as int]);
        }
        if c == ' ' {
            push_char(&mut out, '-');
        } else if (97 <= cv && cv <= 122) || (48 <= cv && cv <= 57) {
            push_char(&mut out, c);
        } else if 65 <= cv && cv <= 90 {
            push_char(&mut out, ((cv + 32) as u8) as char);
        }
        i += 1;
    }
    proof {
        assert(s@.take(n as int) =~= s@);
    }
    out
}

/// Renders a non-negative integer in decimal.
pub fn usize_to_string(n: usize) -> (r: String)
    ensures
        r@ == dec_str(n as int),
    decreases n,
{
    let d: u8 = (n % 10) as u8 + 48;
    if n < 10 {
        let mut s = String::new();
        push_char(&mut s, d as char);
        proof {
            assert(s@ =~= dec_str(n as int));
        }
        s
    } else {
        let mut s = usize_to_string(n / 10);
        push_char(&mut s, d as char);
        proof {
            assert(s@ =~= dec_str(n as int));
        }
        s
    }
}

} // verus!
