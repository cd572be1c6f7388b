//! The JSON envelope around search fragments: a fixed-length prefix and
//! suffix wrap markup whose `/` and `"` characters are backslash-escaped.
use vstd::prelude::*;
use vstd::string::*;

use crate::errors::{ErrorV, ExtractionError};
use crate::text::push_char;

verus! {

/// How many characters the envelope prepends to the escaped markup.
pub const ENVELOPE_PREFIX_LEN: usize = 12;

/// How many characters the envelope appends after the escaped markup.
pub const ENVELOPE_SUFFIX_LEN: usize = 2;

/// Replaces each escape pair `\/` or `\"` by the escaped character, left to
/// right; every other character is kept.
pub open spec fn unescape(s: Seq<char>) -> Seq<char>
    decreases s.len(),
{
    if s.len() == 0 {
        Seq::empty()
    } else if s.len() >= 2 && s[0] == '\\' && (s[1] == '/' || s[1] == '"') {
        seq![s[1]] + unescape(s.skip(2))
    } else {
        seq![s[0]] + unescape(s.skip(1))
    }
}

/// Inserts a backslash before each `/` and `"`.
pub open spec fn escape(s: Seq<char>) -> Seq<char>
    decreases s.len(),
{
    if s.len() == 0 {
        Seq::empty()
    } else if s[0] == '/' || s[0] == '"' {
        seq!['\\', s[0]] + escape(s.drop_first())
    } else {
        seq![s[0]] + escape(s.drop_first())
    }
}

/// The fragment holds no literal `\/` and no literal `\"`.
pub open spec fn no_escape_pairs(s: Seq<char>) -> bool {
    forall|i: int|
        0 <= i < s.len() - 1 ==> !(#[trigger] s[i] == '\\' && (s[i + 1] == '/' || s[i + 1] == '"'))
}

/// What unwrapping a search response yields: the envelope's fixed-length
/// prefix and suffix are stripped and the escapes undone; a document too
/// short to carry the envelope is rejected.
pub open spec fn unwrap_envelope_v(j: Seq<char>) -> Result<Seq<char>, ErrorV> {
    if j.len() < ENVELOPE_PREFIX_LEN + ENVELOPE_SUFFIX_LEN {
        Err(ErrorV::StructuralError("search envelope"@))
    } else {
        Ok(unescape(j.subrange(ENVELOPE_PREFIX_LEN as int, j.len() - ENVELOPE_SUFFIX_LEN)))
    }
}

/// Undoes the escapes in a string.
pub fn unescape_str(s: &str) -> (r: String)
    ensures
        r@ == unescape(s@),
{
    let n: usize = s.unicode_len();
    let mut out = String::new();
    proof {
        assert(s@.skip(0) =~= s@);
        assert(out@ + unescape(s@) =~= unescape(s@));
    }
    let mut i: usize = 0;
    while i < n
        invariant
            n == s@.len(),
            i <= n,
            unescape(s@) == out@ + unescape(s@.skip(i as int)),
        decreases n - i,
    {
        let c = s.get_char(i);
        let ghost rest = s@.skip(i as int);
        proof {
            assert(rest[0] == s@[i as int]);
            assert(rest.len() == n - i);
        }
        if c == '\\' && i + 1 < n {
            let c2 = s.get_char(i + 1);
            proof {
                assert(rest[1] == s@[i + 1]);
            }
            if c2 == '/' || c2 == '"' {
                push_char(&mut out, c2);
                proof {
                    assert(rest.skip(2) =~= s@.skip(i + 2));
                    assert(unescape(rest) == seq![c2] + unescape(s@.skip(i + 2)));
                    assert(unescape(s@) =~= out@ + unescape(s@.skip(i + 2)));
                }
                i += 2;
            } else {
                push_char(&mut out, c);
                proof {
                    assert(rest.skip(1) =~= s@.skip(i + 1));
                    assert(unescape(rest) == seq![c] + unescape(s@.skip(i + 1)));
                    assert(unescape(s@) =~= out@ + unescape(s@.skip(i + 1)));
                }
                i += 1;
            }
        } else {
            push_char(&mut out, c);
            proof {
                assert(rest.skip(1) =~= s@.skip(i + 1));
                assert(unescape(rest) == seq![c] + unescape(s@.skip(i + 1)));
                assert(unescape(s@) =~= out@ + unescape(s@.skip(i + 1)));
            }
            i += 1;
        }
    }
    proof {
        assert(s@.skip(n as int) =~= Seq::<char>::empty());
        assert(out@ + unescape(Seq::<char>::empty()) =~= out@);
    }
    out
}

/// Strips the search endpoint's JSON envelope and undoes the escapes, so the
/// remainder can be fragment-parsed.
pub fn unwrap_search_envelope(json: &str) -> (r: Result<String, ExtractionError>)
    ensures
        r matches Ok(h) ==> unwrap_envelope_v(json@) == Ok::<Seq<char>, ErrorV>(h@),
        r matches Err(e) ==> unwrap_envelope_v(json@) matches Err(ev) && e@ == ev,
{
    let n: usize = json.unicode_len();
    if n < ENVELOPE_PREFIX_LEN + ENVELOPE_SUFFIX_LEN {
        return Err(ExtractionError::StructuralError("search envelope".to_owned()));
    }
    let inner = json.substring_char(ENVELOPE_PREFIX_LEN, n - ENVELOPE_SUFFIX_LEN);
    Ok(unescape_str(inner))
}

proof fn lemma_no_escape_pairs_tail(s: Seq<char>)
    requires
        no_escape_pairs(s),
        s.len() > 0,
    ensures
        no_escape_pairs(s.drop_first()),
{
    assert forall|i: int| 0 <= i < s.drop_first().len() - 1 implies !(#[trigger] s.drop_first()[i]
        == '\\' && (s.drop_first()[i + 1] == '/' || s.drop_first()[i + 1] == '"')) by {
        assert(s.drop_first()[i] == s[i + 1]);
        assert(s.drop_first()[i + 1] == s[i + 2]);
    }
}

/// Undoing the escapes recovers exactly the fragment that was escaped, for
/// any fragment that holds no literal escape pair of its own.
pub proof fn lemma_unescape_escape(s: Seq<char>)
    requires
        no_escape_pairs(s),
    ensures
        unescape(escape(s)) == s,
    decreases s.len(),
{
    if s.len() == 0 {
        assert(unescape(escape(s)) =~= s);
    } else {
        let rest = s.drop_first();
        lemma_no_escape_pairs_tail(s);
        lemma_unescape_escape(rest);
        if s[0] == '/' || s[0] == '"' {
            assert(escape(s) == seq!['\\', s[0]] + escape(rest));
            assert(escape(s).skip(2) =~= escape(rest));
            assert(unescape(escape(s)) == seq![s[0]] + unescape(escape(rest)));
            assert(seq![s[0]] + rest =~= s);
        } else {
            assert(escape(s) == seq![s[0]] + escape(rest));
            if escape(s).len() >= 2 && escape(s)[0] == '\\' && (escape(s)[1] == '/' || escape(s)[1]
                == '"') {
                assert(escape(s)[1] == escape(rest)[0]);
                assert(rest.len() > 0);
                assert(!(escape(rest)[0] == '/' || escape(rest)[0] == '"'));
                assert(false);
            }
            assert(escape(s).skip(1) =~= escape(rest));
            assert(unescape(escape(s)) == seq![s[0]] + unescape(escape(rest)));
            assert(seq![s[0]] + rest =~= s);
        }
    }
}

/// Wrapping a fragment in any envelope of the documented prefix and suffix
/// lengths, escaping it, and unwrapping again yields the fragment back,
/// provided the fragment holds no literal escape pair.
pub proof fn lemma_envelope_round_trip(s: Seq<char>, pre: Seq<char>, post: Seq<char>)
    requires
        no_escape_pairs(s),
        pre.len() == ENVELOPE_PREFIX_LEN,
        post.len() == ENVELOPE_SUFFIX_LEN,
    ensures
        unwrap_envelope_v(pre + escape(s) + post) == Ok::<Seq<char>, ErrorV>(s),
{
    let j = pre + escape(s) + post;
    assert(j.len() == escape(s).len() + 14);
    assert(j.subrange(ENVELOPE_PREFIX_LEN as int, j.len() - ENVELOPE_SUFFIX_LEN) =~= escape(s));
    lemma_unescape_escape(s);
}

} // verus!
