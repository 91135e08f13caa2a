//! Text utilities for the chat decoders and the token matcher: turning raw
//! byte strings from the foreign chat structures into `String`s (rejecting
//! invalid UTF-8), and splitting message text into whitespace-separated
//! tokens.

use vstd::prelude::*;
use vstd::utf8::{decode_utf8, encode_utf8, valid_utf8};

verus! {

/// Relies on `String::from_utf8`: it returns `Ok` exactly when the bytes are
/// valid UTF-8, and then the string is those bytes, i.e. its characters are
/// their decoding.
#[verifier::external_body]
pub fn bytes_to_string(bytes: Vec<u8>) -> (r: Option<String>)
    ensures
        r is Some <==> valid_utf8(bytes@),
        r matches Some(s) ==> s@ == decode_utf8(bytes@) && encode_utf8(s@) == bytes@,
{
    String::from_utf8(bytes).ok()
}

/// The characters the tokenizer splits on: the Unicode White_Space set
/// (ASCII whitespace, next line, no-break space, ogham space mark, the
/// typographic spaces, the line and paragraph separators, narrow no-break
/// space, medium mathematical space, and the ideographic space).
pub open spec fn is_space_char(c: char) -> bool {
    let u = c as int;
    ||| u == 0x09
    ||| u == 0x0A
    ||| u == 0x0B
    ||| u == 0x0C
    ||| u == 0x0D
    ||| u == 0x20
    ||| u == 0x85
    ||| u == 0xA0
    ||| u == 0x1680
    ||| (0x2000 <= u && u <= 0x200A)
    ||| u == 0x2028
    ||| u == 0x2029
    ||| u == 0x202F
    ||| u == 0x205F
    ||| u == 0x3000
}

/// The whitespace-separated tokens of `s`, in order; separators never appear
/// in a token, and no token is empty.
pub open spec fn tokens_of(s: Seq<char>) -> Seq<Seq<char>>
    decreases s.len(),
{
    if s.len() == 0 {
        Seq::empty()
    } else if is_space_char(s[0]) {
        tokens_of(s.drop_first())
    } else {
        let rest = tokens_of(s.drop_first());
        if s.len() > 1 && !is_space_char(s[1]) {
            seq![seq![s[0]] + rest[0]] + rest.drop_first()
        } else {
            seq![seq![s[0]]] + rest
        }
    }
}

proof fn lemma_tokens_skip_space(s: Seq<char>, i: int)
    requires
        0 <= i < s.len(),
        is_space_char(s[i]),
    ensures
        tokens_of(s.skip(i)) == tokens_of(s.skip(i + 1)),
{
    assert(s.skip(i).drop_first() =~= s.skip(i + 1));
}

proof fn lemma_tokens_scan(s: Seq<char>, start: int, end: int)
    requires
        0 <= start < end <= s.len(),
        forall|k: int| start <= k < end ==> !is_space_char(#[trigger] s[k]),
        end == s.len() || is_space_char(s[end]),
    ensures
        tokens_of(s.skip(start)) == seq![s.subrange(start, end)] + tokens_of(s.skip(end)),
    decreases end - start,
{
    let suf = s.skip(start);
    assert(suf[0] == s[start]);
    assert(suf.drop_first() =~= s.skip(start + 1));
    if start + 1 == end {
        if end < s.len() {
            assert(suf.len() > 1 && is_space_char(suf[1]));
        } else {
            assert(suf.len() == 1);
        }
        assert(seq![s[start]] =~= s.subrange(start, end));
        assert(seq![seq![s[start]]] + tokens_of(s.skip(end)) =~= seq![s.subrange(start, end)]
            + tokens_of(s.skip(end)));
    } else {
        assert(suf.len() > 1 && !is_space_char(suf[1]));
        lemma_tokens_scan(s, start + 1, end);
        let rest = tokens_of(s.skip(start + 1));
        assert(rest[0] == s.subrange(start + 1, end));
        assert(rest.drop_first() =~= tokens_of(s.skip(end)));
        assert(seq![s[start]] + s.subrange(start + 1, end) =~= s.subrange(start, end));
        assert(seq![seq![s[start]] + rest[0]] + rest.drop_first() =~= seq![s.subrange(start, end)]
            + tokens_of(s.skip(end)));
    }
}

fn is_space(c: char) -> (r: bool)
    ensures
        r == is_space_char(c),
{
    let u = c as u32;
    u == 0x09 || u == 0x0A || u == 0x0B || u == 0x0C || u == 0x0D || u == 0x20 || u == 0x85 || u
        == 0xA0 || u == 0x1680 || (0x2000 <= u && u <= 0x200A) || u == 0x2028 || u == 0x2029 || u
        == 0x202F || u == 0x205F || u == 0x3000
}

/// Splits `s` on runs of whitespace; the resulting tokens are exactly
/// `tokens_of(s@)`.
pub fn tokenize(s: &str) -> (toks: Vec<String>)
    ensures
        toks.deep_view() == tokens_of(s@),
{
    let mut toks: Vec<String> = Vec::new();
    let len = s.unicode_len();
    let mut i: usize = 0;
    proof {
        assert(s@.skip(0) =~= s@);
    }
    while i < len
        invariant
            i <= len,
            len == s@.len(),
            toks.deep_view() + tokens_of(s@.skip(i as int)) == tokens_of(s@),
        decreases len - i,
    {
        if is_space(s.get_char(i)) {
            proof {
                lemma_tokens_skip_space(s@, i as int);
            }
            i += 1;
        } else {
            let start = i;
            i += 1;
            while i < len && !is_space(s.get_char(i))
                invariant
                    start < i <= len,
                    len == s@.len(),
                    forall|k: int| start <= k < i ==> !is_space_char(#[trigger] s@[k]),
                decreases len - i,
            {
                i += 1;
            }
            let tok_slice = s.substring_char(start, i);
            let tok = tok_slice.to_owned();
            let ghost pre = toks.deep_view();
            toks.push(tok);
            proof {
                lemma_tokens_scan(s@, start as int, i as int);
                assert(toks.deep_view() =~= pre.push(s@.subrange(start as int, i as int)));
                assert(pre + (seq![s@.subrange(start as int, i as int)] + tokens_of(
                    s@.skip(i as int),
                )) =~= toks.deep_view() + tokens_of(s@.skip(i as int)));
            }
        }
    }
    proof {
        assert(s@.skip(len as int) =~= Seq::<char>::empty());
        assert(toks.deep_view() + Seq::<Seq<char>>::empty() =~= toks.deep_view());
    }
    toks
}

} // verus!
