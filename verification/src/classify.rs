use vstd::prelude::*;
use vstd::string::*;
use crate::types::MessageInfo;

verus! {

// ---------------------------------------------------------------------
// The web-link pattern.
//
// A message asks for feedback when its text holds a link: "http://" or
// "https://", then one or more host characters, then a dot and a
// lowercase top-level segment ending at a word boundary.  Host
// characters are letters, digits, and - @ : % . _ + ~ # =; the scheme
// is matched case-sensitively.  The classes are ASCII throughout, the
// trailing word boundary included: any character outside them - all of
// non-ASCII text among these - ends a link.
// ---------------------------------------------------------------------

pub open spec fn is_host_char(c: char) -> bool {
    ('a' <= c && c <= 'z') || ('A' <= c && c <= 'Z') || ('0' <= c && c <= '9') || c == '-' || c
        == '@' || c == ':' || c == '%' || c == '.' || c == '_' || c == '+' || c == '~' || c == '#'
        || c == '='
}

pub open spec fn is_lower_char(c: char) -> bool {
    'a' <= c && c <= 'z'
}

/// ASCII word characters.  The boundary after the top-level segment is
/// judged on these alone, so a link directly followed by a non-ASCII
/// letter still counts as a link.
pub open spec fn is_word_char(c: char) -> bool {
    ('a' <= c && c <= 'z') || ('A' <= c && c <= 'Z') || ('0' <= c && c <= '9') || c == '_'
}

pub open spec fn http_at(s: Seq<char>, i: int) -> bool {
    &&& 0 <= i
    &&& i + 7 <= s.len()
    &&& s[i] == 'h'
    &&& s[i + 1] == 't'
    &&& s[i + 2] == 't'
    &&& s[i + 3] == 'p'
    &&& s[i + 4] == ':'
    &&& s[i + 5] == '/'
    &&& s[i + 6] == '/'
}

pub open spec fn https_at(s: Seq<char>, i: int) -> bool {
    &&& 0 <= i
    &&& i + 8 <= s.len()
    &&& s[i] == 'h'
    &&& s[i + 1] == 't'
    &&& s[i + 2] == 't'
    &&& s[i + 3] == 'p'
    &&& s[i + 4] == 's'
    &&& s[i + 5] == ':'
    &&& s[i + 6] == '/'
    &&& s[i + 7] == '/'
}

/// After a scheme ending at `m`: host characters up to the dot at `j`,
/// then a nonempty lowercase segment up to `p`, ending at a word
/// boundary.
pub open spec fn link_body(s: Seq<char>, m: int, j: int, p: int) -> bool {
    &&& m < j
    &&& j + 1 < p
    &&& p <= s.len()
    &&& (forall|t: int| m <= t < j ==> is_host_char(#[trigger] s[t]))
    &&& s[j] == '.'
    &&& (forall|t: int| j < t < p ==> is_lower_char(#[trigger] s[t]))
    &&& (p == s.len() || !is_word_char(s[p]))
}

/// A link starts at position `i` of `s`.
pub open spec fn match_at(s: Seq<char>, i: int) -> bool {
    ||| (http_at(s, i) && exists|j: int, p: int| #[trigger] link_body(s, i + 7, j, p))
    ||| (https_at(s, i) && exists|j: int, p: int| #[trigger] link_body(s, i + 8, j, p))
}

/// The text holds a link somewhere.
pub open spec fn has_link(s: Seq<char>) -> bool {
    exists|i: int| #[trigger] match_at(s, i)
}

fn host_char(c: char) -> (r: bool)
    ensures
        r == is_host_char(c),
{
    ('a' <= c && c <= 'z') || ('A' <= c && c <= 'Z') || ('0' <= c && c <= '9') || c == '-' || c
        == '@' || c == ':' || c == '%' || c == '.' || c == '_' || c == '+' || c == '~' || c == '#'
        || c == '='
}

fn lower_char(c: char) -> (r: bool)
    ensures
        r == is_lower_char(c),
{
    'a' <= c && c <= 'z'
}

fn word_char(c: char) -> (r: bool)
    ensures
        r == is_word_char(c),
{
    ('a' <= c && c <= 'z') || ('A' <= c && c <= 'Z') || ('0' <= c && c <= '9') || c == '_'
}

/// The length of the scheme starting at `i`: 7 for "http://", 8 for
/// "https://", 0 for neither.
fn scheme_len_at(s: &str, i: usize, n: usize) -> (r: usize)
    requires
        n == s@.len(),
        i <= n,
    ensures
        r == 0 ==> !http_at(s@, i as int) && !https_at(s@, i as int),
        r == 7 ==> http_at(s@, i as int),
        r == 8 ==> https_at(s@, i as int),
        r == 0 || r == 7 || r == 8,
{
    if n - i < 7 {
        return 0;
    }
    let c0 = s.get_char(i);
    let c1 = s.get_char(i + 1);
    let c2 = s.get_char(i + 2);
    let c3 = s.get_char(i + 3);
    let c4 = s.get_char(i + 4);
    if c0 == 'h' && c1 == 't' && c2 == 't' && c3 == 'p' {
        if c4 == ':' && s.get_char(i + 5) == '/' && s.get_char(i + 6) == '/' {
            return 7;
        }
        if n - i >= 8 && c4 == 's' && s.get_char(i + 5) == ':' && s.get_char(i + 6) == '/'
            && s.get_char(i + 7) == '/' {
            return 8;
        }
    }
    0
}

/// Whether the text holds a link, by direct scan for the pattern.
#[verifier::loop_isolation(false)]
pub fn find_link(s: &str) -> (r: bool)
    ensures
        r == has_link(s@),
{
    let n = s.unicode_len();
    let mut i: usize = 0;
    while i < n
        invariant
            n == s@.len(),
            i <= n,
            forall|i0: int| 0 <= i0 < i ==> !match_at(s@, i0),
        decreases n - i,
    {
        let sl = scheme_len_at(s, i, n);
        if sl != 0 {
            let m = i + sl;
            let ghost mi = m as int;
            let mut j: usize = m;
            while j < n && host_char(s.get_char(j))
                invariant
                    n == s@.len(),
                    m <= j <= n,
                    mi == m as int,
                    forall|t: int| mi <= t < j ==> is_host_char(#[trigger] s@[t]),
                    forall|j0: int, p0: int| mi <= j0 < j ==> !#[trigger] link_body(s@, mi, j0, p0),
                decreases n - j,
            {
                if j > m && s.get_char(j) == '.' {
                    let mut p: usize = j + 1;
                    while p < n && lower_char(s.get_char(p))
                        invariant
                            n == s@.len(),
                            j + 1 <= p <= n,
                            forall|t: int| j < t < p ==> is_lower_char(#[trigger] s@[t]),
                        decreases n - p,
                    {
                        p += 1;
                    }
                    let boundary = p == n || !word_char(s.get_char(p));
                    if p > j + 1 && boundary {
                        proof {
                            assert(link_body(s@, mi, j as int, p as int));
                            if sl == 7 {
                                assert(link_body(s@, i as int + 7, j as int, p as int));
                            } else {
                                assert(link_body(s@, i as int + 8, j as int, p as int));
                            }
                            assert(match_at(s@, i as int));
                        }
                        return true;
                    }
                    proof {
                        assert forall|p0: int| !(#[trigger] link_body(s@, mi, j as int, p0)) by {
                            if link_body(s@, mi, j as int, p0) {
                                if p0 > p {
                                    assert(p < n);
                                    assert(is_lower_char(s@[p as int]));
                                    assert(false);
                                } else if p0 == p {
                                    assert(false);
                                } else {
                                    assert(j + 1 < p0 < p);
                                    assert(is_lower_char(s@[p0]));
                                    assert(is_word_char(s@[p0]));
                                    assert(false);
                                }
                            }
                        }
                    }
                }
                j += 1;
            }
            proof {
                assert forall|j0: int, p0: int| !(#[trigger] link_body(s@, mi, j0, p0)) by {
                    if link_body(s@, mi, j0, p0) {
                        if j0 < j {
                            assert(false);
                        } else {
                            if j < n {
                                assert(!is_host_char(s@[j as int]));
                                if j0 == j {
                                    assert(s@[j0] == '.');
                                    assert(is_host_char(s@[j0]));
                                } else {
                                    assert(mi <= j < j0);
                                    assert(is_host_char(s@[j as int]));
                                }
                                assert(false);
                            } else {
                                assert(j0 + 1 < p0 <= s@.len());
                                assert(false);
                            }
                        }
                    }
                }
                if http_at(s@, i as int) {
                    assert(s@[i + 4] == ':');
                    assert(!https_at(s@, i as int));
                }
                if https_at(s@, i as int) {
                    assert(s@[i + 4] == 's');
                    assert(!http_at(s@, i as int));
                }
                assert(!match_at(s@, i as int));
            }
        } else {
            proof {
                assert(!match_at(s@, i as int));
            }
        }
        i += 1;
    }
    proof {
        assert forall|i0: int| !match_at(s@, i0) by {
            if match_at(s@, i0) {
                assert(0 <= i0);
                assert(i0 + 7 <= s@.len());
                assert(i0 < i);
                assert(false);
            }
        }
    }
    false
}

// ---------------------------------------------------------------------
// Audio attachments.
// ---------------------------------------------------------------------

pub open spec fn ends_with(s: Seq<char>, suffix: Seq<char>) -> bool {
    s.len() >= suffix.len() && s.subrange(s.len() - suffix.len(), s.len() as int) == suffix
}

/// The attachment address names an audio file: it ends in ".mp3" or ".wav".
pub open spec fn is_audio_url(s: Seq<char>) -> bool {
    ends_with(s, seq!['.', 'm', 'p', '3']) || ends_with(s, seq!['.', 'w', 'a', 'v'])
}

fn url_is_audio(s: &str) -> (r: bool)
    ensures
        r == is_audio_url(s@),
{
    let n = s.unicode_len();
    if n < 4 {
        return false;
    }
    let c0 = s.get_char(n - 4);
    let c1 = s.get_char(n - 3);
    let c2 = s.get_char(n - 2);
    let c3 = s.get_char(n - 1);
    let r = (c0 == '.' && c1 == 'm' && c2 == 'p' && c3 == '3') || (c0 == '.' && c1 == 'w' && c2
        == 'a' && c3 == 'v');
    proof {
        let tail = s@.subrange(n - 4, n as int);
        assert(tail.len() == 4);
        assert(tail[0] == c0 && tail[1] == c1 && tail[2] == c2 && tail[3] == c3);
        if r {
            if c1 == 'm' {
                assert(tail =~= seq!['.', 'm', 'p', '3']);
            } else {
                assert(tail =~= seq!['.', 'w', 'a', 'v']);
            }
        } else {
            if is_audio_url(s@) {
                assert(false);
            }
        }
    }
    r
}

// ---------------------------------------------------------------------
// Text length.
//
// The reply-length threshold counts UTF-8 bytes: the sum over the
// text's characters of their encoded width.
// ---------------------------------------------------------------------

/// The UTF-8 width of one character, by code point range.
pub open spec fn char_utf8_len(c: char) -> nat {
    if (c as u32) < 0x80 {
        1
    } else if (c as u32) < 0x800 {
        2
    } else if (c as u32) < 0x10000 {
        3
    } else {
        4
    }
}

/// The UTF-8 byte length of text.
pub open spec fn utf8_len(s: Seq<char>) -> nat
    decreases s.len(),
{
    if s.len() == 0 {
        0
    } else {
        utf8_len(s.drop_last()) + char_utf8_len(s.last())
    }
}

#[verifier::loop_isolation(false)]
fn exceeds_byte_len(s: &str, min_len: usize) -> (r: bool)
    ensures
        r == (utf8_len(s@) > min_len),
{
    let n = s.unicode_len();
    let mut total: u128 = 0;
    let mut i: usize = 0;
    while i < n
        invariant
            n == s@.len(),
            i <= n,
            total == utf8_len(s@.take(i as int)),
            total <= 4 * i,
        decreases n - i,
    {
        let c = s.get_char(i);
        let w: u128 = if (c as u32) < 0x80 {
            1
        } else if (c as u32) < 0x800 {
            2
        } else if (c as u32) < 0x10000 {
            3
        } else {
            4
        };
        proof {
            assert(s@.take(i as int + 1).drop_last() =~= s@.take(i as int));
            assert(s@.take(i as int + 1).last() == s@[i as int]);
        }
        total = total + w;
        i += 1;
    }
    proof {
        assert(s@.take(n as int) =~= s@);
    }
    total > min_len as u128
}

// ---------------------------------------------------------------------
// Classification.
// ---------------------------------------------------------------------

/// The message asks for feedback: its text holds a link, or one of its
/// attachments is an audio file.
pub open spec fn spec_is_feedback_request(m: MessageInfo) -> bool {
    has_link(m.content@) || exists|i: int|
        0 <= i < m.attachment_urls@.len() && is_audio_url(#[trigger] m.attachment_urls@[i]@)
}

/// The message gives feedback: it is an inline reply, its text is
/// strictly longer than `min_len` (counted in UTF-8 bytes), the message
/// it answers is resolved and is itself a feedback request, and its
/// author differs from the request's author (self-replies never count).
pub open spec fn spec_is_feedback_reply(m: MessageInfo, min_len: nat) -> bool {
    &&& m.is_inline_reply
    &&& utf8_len(m.content@) > min_len
    &&& m.referenced is Some
    &&& spec_is_feedback_request(*m.referenced->0)
    &&& m.referenced->0.author != m.author
}

/// Classifies a message as a feedback request.  Total: never an error.
pub fn is_feedback_request(msg: &MessageInfo) -> (r: bool)
    ensures
        r == spec_is_feedback_request(*msg),
{
    if find_link(msg.content.as_str()) {
        return true;
    }
    let mut i: usize = 0;
    while i < msg.attachment_urls.len()
        invariant
            i <= msg.attachment_urls@.len(),
            !has_link(msg.content@),
            forall|t: int| 0 <= t < i ==> !is_audio_url(#[trigger] msg.attachment_urls@[t]@),
        decreases msg.attachment_urls@.len() - i,
    {
        if url_is_audio(msg.attachment_urls[i].as_str()) {
            return true;
        }
        i += 1;
    }
    false
}

/// Classifies a message as a feedback reply to a request.  Total: an
/// unresolved reference classifies as `false`, never an error.
pub fn is_feedback_reply(msg: &MessageInfo, min_len: usize) -> (r: bool)
    ensures
        r == spec_is_feedback_reply(*msg, min_len as nat),
{
    if !msg.is_inline_reply {
        return false;
    }
    if !exceeds_byte_len(msg.content.as_str(), min_len) {
        return false;
    }
    match &msg.referenced {
        Some(ref_msg) => is_feedback_request(&*ref_msg) && ref_msg.author != msg.author,
        None => false,
    }
}

} // verus!
