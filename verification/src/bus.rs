//! The bus message: one user request, carried from the front end to the
//! worker as a flat key-value document of three scalar fields.  Framing and
//! parsing of the document are verified; the parser accepts exactly the
//! canonical frames, so a parsed message pins down the whole document.
//!
//! URLs travel literally, without an escape mechanism: a quote, backslash
//! or raw newline cannot be framed — none of them is a URL character, and
//! the URL parser percent-encodes them on normalization — and
//! [`encode_bus_message`] reports such an input rather than mangling it.

use vstd::prelude::*;

use crate::strutil::{dec_of, is_digit, is_sub_at, lemma_dec_of_digits_val, matches_at,
    parse_u64_digits_bounded, u64_to_string};

verus! {

/// One message on the bus: chat, message and URL.  The reply capability is
/// reconstructed locally from configuration, not transmitted.
#[derive(Debug)]
pub struct BotMessage {
    pub chat_id: i64,
    pub message_id: i32,
    pub url: String,
}

/// The decimal text of `n`, with a leading minus for negatives.
pub open spec fn int_str_of(n: int) -> Seq<char> {
    if n < 0 {
        seq!['-'] + dec_of((-n) as nat)
    } else {
        dec_of(n as nat)
    }
}

/// Renders a signed number in decimal.
pub fn i64_to_string(n: i64) -> (r: String)
    ensures
        r@ == int_str_of(n as int),
{
    if n >= 0 {
        u64_to_string(n as u64)
    } else {
        let mag: u64 = if n == i64::MIN {
            9223372036854775808
        } else {
            (-n) as u64
        };
        proof {
            reveal_strlit("-");
        }
        let mut s = String::from_str("-");
        let d = u64_to_string(mag);
        s.append(d.as_str());
        proof {
            assert(s@ =~= int_str_of(n as int));
        }
        s
    }
}

/// A rendered number is never empty and never contains a newline.
proof fn lemma_int_str_no_newline(n: int)
    ensures
        int_str_of(n).len() >= 1,
        forall|i: int| 0 <= i < int_str_of(n).len() ==> #[trigger] int_str_of(n)[i] != '\n',
{
    if n < 0 {
        crate::strutil::lemma_dec_of_props((-n) as nat);
        assert forall|i: int| 0 <= i < int_str_of(n).len() implies #[trigger] int_str_of(n)[i]
            != '\n' by {
            if i > 0 {
                assert(int_str_of(n)[i] == dec_of((-n) as nat)[i - 1]);
                assert(is_digit(dec_of((-n) as nat)[i - 1]));
            }
        }
    } else {
        crate::strutil::lemma_dec_of_props(n as nat);
        assert forall|i: int| 0 <= i < int_str_of(n).len() implies #[trigger] int_str_of(n)[i]
            != '\n' by {
            assert(is_digit(dec_of(n as nat)[i]));
        }
    }
}

/// Two numbers with the same rendering are the same number.
proof fn lemma_int_str_injective(a: int, b: int)
    requires
        int_str_of(a) == int_str_of(b),
    ensures
        a == b,
{
    if a >= 0 {
        crate::strutil::lemma_dec_of_props(a as nat);
    } else {
        crate::strutil::lemma_dec_of_props((-a) as nat);
    }
    if b >= 0 {
        crate::strutil::lemma_dec_of_props(b as nat);
    } else {
        crate::strutil::lemma_dec_of_props((-b) as nat);
    }
    if a >= 0 && b >= 0 {
        crate::strutil::lemma_digits_val_dec_of(a as nat);
        crate::strutil::lemma_digits_val_dec_of(b as nat);
    } else if a < 0 && b < 0 {
        assert(dec_of((-a) as nat) =~= int_str_of(a).subrange(1, int_str_of(a).len() as int));
        assert(dec_of((-b) as nat) =~= int_str_of(b).subrange(1, int_str_of(b).len() as int));
        crate::strutil::lemma_digits_val_dec_of((-a) as nat);
        crate::strutil::lemma_digits_val_dec_of((-b) as nat);
    } else if a < 0 {
        assert(int_str_of(a)[0] == '-');
        assert(is_digit(dec_of(b as nat)[0]));
        assert(int_str_of(b)[0] == dec_of(b as nat)[0]);
    } else {
        assert(int_str_of(b)[0] == '-');
        assert(is_digit(dec_of(a as nat)[0]));
        assert(int_str_of(a)[0] == dec_of(a as nat)[0]);
    }
}

/// Framing is unambiguous: equal documents carry equal messages.  Together
/// with the parser's exactness this makes the bus round trip lossless.
pub proof fn lemma_bus_doc_injective(
    c1: int,
    m1: int,
    u1: Seq<char>,
    c2: int,
    m2: int,
    u2: Seq<char>,
)
    requires
        bus_doc_of(c1, m1, u1) == bus_doc_of(c2, m2, u2),
    ensures
        c1 == c2,
        m1 == m2,
        u1 == u2,
{
    reveal_strlit("chat_id = ");
    reveal_strlit("\nmessage_id = ");
    reveal_strlit("\nurl = \"");
    reveal_strlit("\"\n");
    let d = bus_doc_of(c1, m1, u1);
    let s1 = int_str_of(c1);
    let s2 = int_str_of(c2);
    lemma_int_str_no_newline(c1);
    lemma_int_str_no_newline(c2);
    lemma_int_str_no_newline(m1);
    lemma_int_str_no_newline(m2);
    assert forall|j: int| 0 <= j < s1.len() implies #[trigger] d[10 + j] == s1[j] by {}
    assert forall|j: int| 0 <= j < s2.len() implies #[trigger] d[10 + j] == s2[j] by {}
    assert(d[10 + s1.len() as int] == '\n');
    assert(d[10 + s2.len() as int] == '\n');
    if s1.len() < s2.len() {
        assert(d[10 + s1.len() as int] == s2[s1.len() as int]);
        assert(false);
    }
    if s2.len() < s1.len() {
        assert(d[10 + s2.len() as int] == s1[s2.len() as int]);
        assert(false);
    }
    assert forall|j: int| 0 <= j < s1.len() implies s1[j] == s2[j] by {
        assert(d[10 + j] == s1[j]);
        assert(d[10 + j] == s2[j]);
    }
    assert(s1 =~= s2);
    lemma_int_str_injective(c1, c2);

    let q = 10 + s1.len() as int + 14;
    let t1 = int_str_of(m1);
    let t2 = int_str_of(m2);
    assert forall|j: int| 0 <= j < t1.len() implies #[trigger] d[q + j] == t1[j] by {}
    assert forall|j: int| 0 <= j < t2.len() implies #[trigger] d[q + j] == t2[j] by {}
    assert(d[q + t1.len() as int] == '\n');
    assert(d[q + t2.len() as int] == '\n');
    if t1.len() < t2.len() {
        assert(d[q + t1.len() as int] == t2[t1.len() as int]);
        assert(false);
    }
    if t2.len() < t1.len() {
        assert(d[q + t2.len() as int] == t1[t2.len() as int]);
        assert(false);
    }
    assert forall|j: int| 0 <= j < t1.len() implies t1[j] == t2[j] by {
        assert(d[q + j] == t1[j]);
        assert(d[q + j] == t2[j]);
    }
    assert(t1 =~= t2);
    lemma_int_str_injective(m1, m2);

    let r = q + t1.len() as int + 8;
    assert(d.len() == r + u1.len() + 2);
    assert(d.len() == r + u2.len() + 2);
    assert forall|j: int| 0 <= j < u1.len() implies #[trigger] u1[j] == d[r + j] by {}
    assert forall|j: int| 0 <= j < u2.len() implies #[trigger] u2[j] == d[r + j] by {}
    assert forall|j: int| 0 <= j < u1.len() implies u1[j] == u2[j] by {
        assert(u1[j] == d[r + j]);
        assert(u2[j] == d[r + j]);
    }
    assert(u1 =~= u2);
}

/// A canonically rendered number fills `s[at..j)`: optional minus, then
/// digits, the run ending where the digits end.
pub open spec fn int_at(s: Seq<char>, at: int, v: int, j: int) -> bool {
    &&& 0 <= at < j <= s.len()
    &&& s.subrange(at, j) == int_str_of(v)
    &&& (j == s.len() || !is_digit(s[j]))
}

/// Two canonical numbers read at the same position are the same number and
/// end at the same place.
proof fn lemma_int_at_unique(s: Seq<char>, at: int, v1: int, j1: int, v2: int, j2: int)
    requires
        int_at(s, at, v1, j1),
        int_at(s, at, v2, j2),
    ensures
        v1 == v2,
        j1 == j2,
{
    lemma_int_str_digit_shape(v1);
    lemma_int_str_digit_shape(v2);
    let d1 = if v1 < 0 {
        at + 1
    } else {
        at
    };
    let d2 = if v2 < 0 {
        at + 1
    } else {
        at
    };
    assert(s[at] == int_str_of(v1)[0]);
    assert(s[at] == int_str_of(v2)[0]);
    assert((v1 < 0) == (s[at] == '-'));
    assert((v2 < 0) == (s[at] == '-'));
    assert(d1 == d2);
    assert forall|l: int| d1 <= l < j1 implies is_digit(#[trigger] s[l]) by {
        assert(s[l] == int_str_of(v1)[l - at]);
    }
    assert forall|l: int| d1 <= l < j2 implies is_digit(#[trigger] s[l]) by {
        assert(s[l] == int_str_of(v2)[l - at]);
    }
    if j1 < j2 {
        assert(is_digit(s[j1]));
        assert(false);
    }
    if j2 < j1 {
        assert(is_digit(s[j2]));
        assert(false);
    }
    assert(int_str_of(v1) =~= int_str_of(v2));
    lemma_int_str_injective(v1, v2);
}

/// A rendered number is a minus sign for a negative, then decimal digits.
proof fn lemma_int_str_digit_shape(v: int)
    ensures
        int_str_of(v).len() >= 1,
        v < 0 ==> int_str_of(v)[0] == '-' && int_str_of(v).len() >= 2,
        v >= 0 ==> is_digit(int_str_of(v)[0]),
        forall|l: int|
            (if v < 0 {
                1int
            } else {
                0int
            }) <= l < int_str_of(v).len() ==> is_digit(#[trigger] int_str_of(v)[l]),
{
    if v < 0 {
        crate::strutil::lemma_dec_of_props((-v) as nat);
        assert forall|l: int| 1 <= l < int_str_of(v).len() implies is_digit(
            #[trigger] int_str_of(v)[l],
        ) by {
            assert(int_str_of(v)[l] == dec_of((-v) as nat)[l - 1]);
        }
    } else {
        crate::strutil::lemma_dec_of_props(v as nat);
    }
}

/// When a canonical number fills `s[at..jj)`, the characters after its sign
/// are exactly the decimal rendering of its magnitude.
proof fn lemma_run_is_digits(s: Seq<char>, at: int, v: int, jj: int, dstart: int)
    requires
        int_at(s, at, v, jj),
        dstart == if v < 0 {
            at + 1
        } else {
            at
        },
    ensures
        s.subrange(dstart, jj) == dec_of(
            if v < 0 {
                (-v) as nat
            } else {
                v as nat
            },
        ),
{
    let mag: nat = if v < 0 {
        (-v) as nat
    } else {
        v as nat
    };
    lemma_int_str_digit_shape(v);
    assert forall|l: int|
        0 <= l < jj - dstart implies s.subrange(dstart, jj)[l] == dec_of(mag)[l] by {
        assert(s.subrange(dstart, jj)[l] == s[dstart + l]);
        assert(s[dstart + l] == s.subrange(at, jj)[dstart - at + l]);
        assert(int_str_of(v)[dstart - at + l] == dec_of(mag)[l]);
    }
    assert(s.subrange(dstart, jj) =~= dec_of(mag));
}

/// A URL the flat document can carry literally: no quote, no backslash, no
/// newline.
pub open spec fn framable_url(u: Seq<char>) -> bool {
    forall|i: int| 0 <= i < u.len() ==> u[i] != '"' && u[i] != '\\' && u[i] != '\n'
}

/// The canonical frame of one bus message.
pub open spec fn bus_doc_of(chat_id: int, message_id: int, url: Seq<char>) -> Seq<char> {
    "chat_id = "@ + int_str_of(chat_id) + "\nmessage_id = "@ + int_str_of(message_id)
        + "\nurl = \""@ + url + "\"\n"@
}

/// Where each piece of a canonical frame stands.
proof fn lemma_doc_layout(s: Seq<char>, c: int, mi: int, u: Seq<char>)
    requires
        s == bus_doc_of(c, mi, u),
        framable_url(u),
    ensures
        ({
            let il = int_str_of(c).len() as int;
            let ml = int_str_of(mi).len() as int;
            &&& s.len() == 34 + il + ml + u.len()
            &&& is_sub_at(s, "chat_id = "@, 0)
            &&& int_at(s, 10, c, 10 + il)
            &&& is_sub_at(s, "\nmessage_id = "@, 10 + il)
            &&& int_at(s, 24 + il, mi, 24 + il + ml)
            &&& is_sub_at(s, "\nurl = \""@, 24 + il + ml)
            &&& s.subrange(32 + il + ml, 32 + il + ml + u.len() as int) == u
            &&& (forall|l: int|
                32 + il + ml <= l < 32 + il + ml + u.len() ==> #[trigger] s[l] != '"' && s[l]
                    != '\\' && s[l] != '\n')
            &&& is_sub_at(s, "\"\n"@, 32 + il + ml + u.len() as int)
        }),
{
    reveal_strlit("chat_id = ");
    reveal_strlit("\nmessage_id = ");
    reveal_strlit("\nurl = \"");
    reveal_strlit("\"\n");
    lemma_int_str_digit_shape(c);
    lemma_int_str_digit_shape(mi);
    let il = int_str_of(c).len() as int;
    let ml = int_str_of(mi).len() as int;
    assert(s.len() == 34 + il + ml + u.len());
    assert(s.subrange(0, 10) =~= "chat_id = "@);
    assert(s.subrange(10, 10 + il) =~= int_str_of(c));
    assert(s[10 + il] == '\n');
    assert(!is_digit('\n'));
    assert(s.subrange(10 + il, 24 + il) =~= "\nmessage_id = "@);
    assert(s.subrange(24 + il, 24 + il + ml) =~= int_str_of(mi));
    assert(s[24 + il + ml] == '\n');
    assert(s.subrange(24 + il + ml, 32 + il + ml) =~= "\nurl = \""@);
    assert(s.subrange(32 + il + ml, 32 + il + ml + u.len() as int) =~= u);
    assert forall|l: int|
        32 + il + ml <= l < 32 + il + ml + u.len() implies #[trigger] s[l] != '"' && s[l] != '\\'
        && s[l] != '\n' by {
        assert(s[l] == u[l - (32 + il + ml)]);
    }
    assert(s.subrange(32 + il + ml + u.len() as int, s.len() as int) =~= "\"\n"@);
}

/// Aligns the parser's scanned positions with the layout of a canonical
/// frame: the scanned numbers are the frame's, and the URL region follows.
proof fn lemma_frame_alignment(
    s: Seq<char>,
    c: int,
    mi: int,
    u: Seq<char>,
    chat_id: i64,
    p2: int,
    mid64: i64,
    p4: int,
)
    requires
        framable_url(u),
        s == bus_doc_of(c, mi, u),
        int_at(s, 10, chat_id as int, p2),
        int_at(s, p2 + 14, mid64 as int, p4),
    ensures
        chat_id as int == c,
        mid64 as int == mi,
        p2 == 10 + int_str_of(c).len(),
        p4 == 24 + int_str_of(c).len() + int_str_of(mi).len(),
        s.len() == p4 + 10 + u.len(),
        s.subrange(p4 + 8, p4 + 8 + u.len() as int) == u,
        forall|l: int|
            p4 + 8 <= l < p4 + 8 + u.len() ==> #[trigger] s[l] != '"' && s[l] != '\\' && s[l]
                != '\n',
        s[p4 + 8 + u.len()] == '"',
        is_sub_at(s, "\"\n"@, p4 + 8 + u.len() as int),
        is_sub_at(s, "\nurl = \""@, p4),
        is_sub_at(s, "\nmessage_id = "@, p2),
{
    reveal_strlit("\"\n");
    lemma_doc_layout(s, c, mi, u);
    let il = int_str_of(c).len() as int;
    let ml = int_str_of(mi).len() as int;
    lemma_int_at_unique(s, 10, chat_id as int, p2, c, 10 + il);
    lemma_int_at_unique(s, p2 + 14, mid64 as int, p4, mi, 24 + il + ml);
    assert(s[p4 + 8 + u.len()] == s.subrange(
        32 + il + ml + u.len() as int,
        s.len() as int,
    )[0]);
}

/// Whether the URL can be framed literally.
fn url_is_framable(url: &str) -> (r: bool)
    ensures
        r == framable_url(url@),
{
    let len = url.unicode_len();
    let mut i: usize = 0;
    while i < len
        invariant
            i <= len,
            len == url@.len(),
            forall|l: int| 0 <= l < i ==> url@[l] != '"' && url@[l] != '\\' && url@[l] != '\n',
        decreases len - i,
    {
        let c = url.get_char(i);
        if c == '"' || c == '\\' || c == '\n' {
            return false;
        }
        i += 1;
    }
    true
}

/// Frames a message as the canonical flat document; `None` when the URL
/// cannot be carried literally.
pub fn encode_bus_message(message: &BotMessage) -> (r: Option<String>)
    ensures
        framable_url(message.url@) ==> (r matches Some(s) && s@ == bus_doc_of(
            message.chat_id as int,
            message.message_id as int,
            message.url@,
        )),
        !framable_url(message.url@) ==> r is None,
{
    if !url_is_framable(message.url.as_str()) {
        return None;
    }
    let mut s = String::from_str("chat_id = ");
    let chat = i64_to_string(message.chat_id);
    s.append(chat.as_str());
    s.append("\nmessage_id = ");
    let mid = i64_to_string(message.message_id as i64);
    s.append(mid.as_str());
    s.append("\nurl = \"");
    s.append(message.url.as_str());
    s.append("\"\n");
    proof {
        assert(s@ =~= bus_doc_of(
            message.chat_id as int,
            message.message_id as int,
            message.url@,
        ));
    }
    Some(s)
}

/// Expects the literal `lit` at position `at`; yields the position after it.
fn expect_lit(s: &str, at: usize, lit: &str) -> (r: Option<usize>)
    ensures
        r matches Some(j) ==> j == at + lit@.len() && j <= s@.len() && s@.subrange(
            at as int,
            j as int,
        ) == lit@,
        r is None ==> at + lit@.len() > s@.len() || !is_sub_at(s@, lit@, at as int),
{
    let len = s.unicode_len();
    let llen = lit.unicode_len();
    if at > len || llen > len - at {
        return None;
    }
    if matches_at(s, lit, at) {
        proof {
            assert(s@.subrange(at as int, (at + llen) as int) =~= lit@);
        }
        Some(at + llen)
    } else {
        None
    }
}

/// Scans a canonically rendered signed number at position `at`: an optional
/// minus, then digits without a needless leading zero, within the `i64`
/// range.
fn scan_i64(s: &str, at: usize) -> (r: Option<(i64, usize)>)
    ensures
        r matches Some(p) ==> int_at(s@, at as int, p.0 as int, p.1 as int) && at < p.1,
        r is None ==> forall|v: i64, jj: int| !int_at(s@, at as int, v as int, jj),
{
    let len = s.unicode_len();
    if at >= len {
        return None;
    }
    let neg = s.get_char(at) == '-';
    let dstart = if neg {
        at + 1
    } else {
        at
    };
    let mut j: usize = dstart;
    while j < len
        invariant
            dstart <= j <= len,
            len == s@.len(),
            forall|l: int| dstart <= l < j ==> is_digit(s@[l]),
        ensures
            dstart <= j <= len,
            forall|l: int| dstart <= l < j ==> is_digit(s@[l]),
            j == len || !is_digit(s@[j as int]),
        decreases len - j,
    {
        let c = s.get_char(j) as u32;
        if !(48 <= c && c <= 57) {
            assert(!is_digit(s@[j as int]));
            break;
        }
        j += 1;
    }
    proof {
        assert forall|v: i64, jj: int|
            int_at(s@, at as int, v as int, jj) implies jj == j && (v < 0) == neg && (
            if v < 0 {
                at + 1
            } else {
                at as int
            }) == dstart by {
            lemma_int_str_digit_shape(v as int);
            assert(s@[at as int] == int_str_of(v as int)[0]);
            assert((v < 0) == (s@[at as int] == '-'));
            let d2: int = if v < 0 {
                at + 1
            } else {
                at as int
            };
            assert(d2 == dstart);
            assert forall|l: int| d2 <= l < jj implies is_digit(#[trigger] s@[l]) by {
                assert(s@[l] == int_str_of(v as int)[l - at]);
            }
            if jj < j {
                assert(is_digit(s@[jj]));
                assert(false);
            }
            if (j as int) < jj {
                assert(is_digit(s@[j as int]));
                assert(false);
            }
        }
    }
    if j == dstart {
        proof {
            assert forall|v: i64, jj: int| !int_at(s@, at as int, v as int, jj) by {
                if int_at(s@, at as int, v as int, jj) {
                    lemma_int_str_digit_shape(v as int);
                }
            }
        }
        return None;
    }
    let first = s.get_char(dstart) as u32;
    if first == 48 && j > dstart + 1 {
        proof {
            assert forall|v: i64, jj: int| !int_at(s@, at as int, v as int, jj) by {
                if int_at(s@, at as int, v as int, jj) {
                    lemma_int_str_digit_shape(v as int);
                    let mag: nat = if v < 0 {
                        (-v) as nat
                    } else {
                        v as nat
                    };
                    lemma_run_is_digits(s@, at as int, v as int, jj, dstart as int);
                    crate::strutil::lemma_dec_of_props(mag);
                    assert(dec_of(mag)[0] == s@.subrange(dstart as int, jj)[0]);
                    assert(dec_of(mag)[0] == '0');
                    assert(dec_of(mag).len() == 1);
                    assert(jj == dstart + 1);
                }
            }
        }
        return None;
    }
    let run = s.substring_char(dstart, j);
    let max: u64 = if neg {
        9223372036854775808
    } else {
        9223372036854775807
    };
    let v = match parse_u64_digits_bounded(run, max) {
        Some(v) => v,
        None => {
            proof {
                assert forall|v2: i64, jj: int| !int_at(s@, at as int, v2 as int, jj) by {
                    if int_at(s@, at as int, v2 as int, jj) {
                        lemma_int_str_digit_shape(v2 as int);
                        let mag: nat = if v2 < 0 {
                            (-v2) as nat
                        } else {
                            v2 as nat
                        };
                        lemma_run_is_digits(s@, at as int, v2 as int, jj, dstart as int);
                        assert(run@ == dec_of(mag));
                        crate::strutil::lemma_digits_val_dec_of(mag);
                        crate::strutil::lemma_dec_of_props(mag);
                        assert(mag <= max);
                    }
                }
            }
            return None;
        },
    };
    if neg && v == 0 {
        proof {
            assert forall|v2: i64, jj: int| !int_at(s@, at as int, v2 as int, jj) by {
                if int_at(s@, at as int, v2 as int, jj) {
                    lemma_int_str_digit_shape(v2 as int);
                    assert(v2 < 0);
                    let mag: nat = (-v2) as nat;
                    lemma_run_is_digits(s@, at as int, v2 as int, jj, dstart as int);
                    assert(run@ == dec_of(mag));
                    crate::strutil::lemma_digits_val_dec_of(mag);
                    assert(mag == v);
                }
            }
        }
        return None;
    }
    let value: i64 = if !neg {
        v as i64
    } else if v == 9223372036854775808 {
        i64::MIN
    } else {
        -(v as i64)
    };
    proof {
        lemma_dec_of_digits_val(run@);
        if neg {
            assert(s@.subrange(at as int, j as int) =~= seq!['-'] + run@);
            assert(int_str_of(value as int) == seq!['-'] + dec_of((-(value as int)) as nat));
            assert((-(value as int)) as nat == v as nat);
        } else {
            assert(int_str_of(value as int) == dec_of(v as nat));
        }
    }
    Some((value, j))
}

/// No canonical frame reads as the document `s`.
pub open spec fn no_frame_matches(s: Seq<char>) -> bool {
    forall|c: i64, mi: i32, u: Seq<char>|
        !(framable_url(u) && s == #[trigger] bus_doc_of(c as int, mi as int, u))
}

/// Parses a flat document as a bus message: exactly the canonical frames
/// are accepted, and a parsed message reproduces the document.
#[verifier::rlimit(50)]
pub fn parse_bus_message(s: &str) -> (r: Option<BotMessage>)
    ensures
        r matches Some(m) ==> framable_url(m.url@) && s@ == bus_doc_of(
            m.chat_id as int,
            m.message_id as int,
            m.url@,
        ),
        r is None ==> no_frame_matches(s@),
{
    let len = s.unicode_len();
    let p0: usize = 0;
    let p1 = match expect_lit(s, p0, "chat_id = ") {
        Some(p) => p,
        None => {
            proof {
                assert forall|c: i64, mi: i32, u: Seq<char>|
                    !(framable_url(u) && s@ == #[trigger] bus_doc_of(
                        c as int,
                        mi as int,
                        u,
                    )) by {
                    if framable_url(u) && s@ == bus_doc_of(c as int, mi as int, u) {
                        reveal_strlit("chat_id = ");
                        lemma_doc_layout(s@, c as int, mi as int, u);
                    }
                }
            }
            return None;
        },
    };
    proof {
        reveal_strlit("chat_id = ");
        assert(p1 == 10);
    }
    let (chat_id, p2) = match scan_i64(s, p1) {
        Some(p) => p,
        None => {
            proof {
                assert forall|c: i64, mi: i32, u: Seq<char>|
                    !(framable_url(u) && s@ == #[trigger] bus_doc_of(
                        c as int,
                        mi as int,
                        u,
                    )) by {
                    if framable_url(u) && s@ == bus_doc_of(c as int, mi as int, u) {
                        lemma_doc_layout(s@, c as int, mi as int, u);
                        assert(int_at(s@, 10, c as int, 10 + int_str_of(c as int).len() as int));
                    }
                }
            }
            return None;
        },
    };
    let p3 = match expect_lit(s, p2, "\nmessage_id = ") {
        Some(p) => p,
        None => {
            proof {
                assert forall|c: i64, mi: i32, u: Seq<char>|
                    !(framable_url(u) && s@ == #[trigger] bus_doc_of(
                        c as int,
                        mi as int,
                        u,
                    )) by {
                    if framable_url(u) && s@ == bus_doc_of(c as int, mi as int, u) {
                        lemma_doc_layout(s@, c as int, mi as int, u);
                        let il = int_str_of(c as int).len() as int;
                        lemma_int_at_unique(
                            s@,
                            10,
                            chat_id as int,
                            p2 as int,
                            c as int,
                            10 + il,
                        );
                    }
                }
            }
            return None;
        },
    };
    proof {
        reveal_strlit("\nmessage_id = ");
        assert(p3 == p2 + 14);
    }
    let (mid64, p4) = match scan_i64(s, p3) {
        Some(p) => p,
        None => {
            proof {
                assert forall|c: i64, mi: i32, u: Seq<char>|
                    !(framable_url(u) && s@ == #[trigger] bus_doc_of(
                        c as int,
                        mi as int,
                        u,
                    )) by {
                    if framable_url(u) && s@ == bus_doc_of(c as int, mi as int, u) {
                        lemma_doc_layout(s@, c as int, mi as int, u);
                        let il = int_str_of(c as int).len() as int;
                        let ml = int_str_of(mi as int).len() as int;
                        lemma_int_at_unique(
                            s@,
                            10,
                            chat_id as int,
                            p2 as int,
                            c as int,
                            10 + il,
                        );
                        assert(int_at(s@, 24 + il, mi as int, 24 + il + ml));
                    }
                }
            }
            return None;
        },
    };
    if mid64 > 2147483647 || mid64 < -2147483648 {
        proof {
            assert forall|c: i64, mi: i32, u: Seq<char>|
                !(framable_url(u) && s@ == #[trigger] bus_doc_of(c as int, mi as int, u)) by {
                if framable_url(u) && s@ == bus_doc_of(c as int, mi as int, u) {
                    lemma_frame_alignment(
                        s@,
                        c as int,
                        mi as int,
                        u,
                        chat_id,
                        p2 as int,
                        mid64,
                        p4 as int,
                    );
                }
            }
        }
        return None;
    }
    let message_id: i32 = mid64 as i32;
    let p5 = match expect_lit(s, p4, "\nurl = \"") {
        Some(p) => p,
        None => {
            proof {
                assert forall|c: i64, mi: i32, u: Seq<char>|
                    !(framable_url(u) && s@ == #[trigger] bus_doc_of(
                        c as int,
                        mi as int,
                        u,
                    )) by {
                    if framable_url(u) && s@ == bus_doc_of(c as int, mi as int, u) {
                        lemma_frame_alignment(
                            s@,
                            c as int,
                            mi as int,
                            u,
                            chat_id,
                            p2 as int,
                            mid64,
                            p4 as int,
                        );
                    }
                }
            }
            return None;
        },
    };
    proof {
        reveal_strlit("\nurl = \"");
        assert(p5 == p4 + 8);
    }
    let mut k: usize = p5;
    while k < len
        invariant
            p5 <= k <= len,
            len == s@.len(),
            int_at(s@, 10, chat_id as int, p2 as int),
            int_at(s@, p2 + 14, mid64 as int, p4 as int),
            p5 == p4 + 8,
            forall|l: int| p5 <= l < k ==> s@[l] != '"' && s@[l] != '\\' && s@[l] != '\n',
        ensures
            p5 <= k <= len,
            forall|l: int| p5 <= l < k ==> s@[l] != '"' && s@[l] != '\\' && s@[l] != '\n',
            k == len || s@[k as int] == '\"',
        decreases len - k,
    {
        let ch = s.get_char(k);
        if ch == '\"' {
            break;
        }
        if ch == '\\' || ch == '\n' {
            proof {
                assert forall|c: i64, mi: i32, u: Seq<char>|
                    !(framable_url(u) && s@ == #[trigger] bus_doc_of(
                        c as int,
                        mi as int,
                        u,
                    )) by {
                    if framable_url(u) && s@ == bus_doc_of(c as int, mi as int, u) {
                        lemma_frame_alignment(
                            s@,
                            c as int,
                            mi as int,
                            u,
                            chat_id,
                            p2 as int,
                            mid64,
                            p4 as int,
                        );
                        let qpos = p4 + 8 + u.len() as int;
                        if (k as int) < qpos {
                            assert(s@[k as int] != '\\' && s@[k as int] != '\n');
                        } else if k as int == qpos {
                            assert(s@[k as int] == '\"');
                        } else {
                            assert(s@[qpos] == '\"');
                        }
                    }
                }
            }
            return None;
        }
        k += 1;
    }
    if k == len {
        proof {
            assert forall|c: i64, mi: i32, u: Seq<char>|
                !(framable_url(u) && s@ == #[trigger] bus_doc_of(c as int, mi as int, u)) by {
                if framable_url(u) && s@ == bus_doc_of(c as int, mi as int, u) {
                    lemma_frame_alignment(
                        s@,
                        c as int,
                        mi as int,
                        u,
                        chat_id,
                        p2 as int,
                        mid64,
                        p4 as int,
                    );
                    assert(s@[p4 + 8 + u.len()] == '\"');
                }
            }
        }
        return None;
    }
    let url = s.substring_char(p5, k).to_owned();
    let p6 = match expect_lit(s, k, "\"\n") {
        Some(p) => p,
        None => {
            proof {
                assert forall|c: i64, mi: i32, u: Seq<char>|
                    !(framable_url(u) && s@ == #[trigger] bus_doc_of(
                        c as int,
                        mi as int,
                        u,
                    )) by {
                    if framable_url(u) && s@ == bus_doc_of(c as int, mi as int, u) {
                        reveal_strlit("\"\n");
                        lemma_frame_alignment(
                            s@,
                            c as int,
                            mi as int,
                            u,
                            chat_id,
                            p2 as int,
                            mid64,
                            p4 as int,
                        );
                        let qpos = p4 + 8 + u.len() as int;
                        if (k as int) < qpos {
                            assert(s@[k as int] != '\"');
                        } else if qpos < k as int {
                            assert(s@[qpos] == '\"');
                        }
                        assert(k as int == qpos);
                    }
                }
            }
            return None;
        },
    };
    if p6 != len {
        proof {
            reveal_strlit("\"\n");
            assert forall|c: i64, mi: i32, u: Seq<char>|
                !(framable_url(u) && s@ == #[trigger] bus_doc_of(c as int, mi as int, u)) by {
                if framable_url(u) && s@ == bus_doc_of(c as int, mi as int, u) {
                    lemma_frame_alignment(
                        s@,
                        c as int,
                        mi as int,
                        u,
                        chat_id,
                        p2 as int,
                        mid64,
                        p4 as int,
                    );
                    let qpos = p4 + 8 + u.len() as int;
                    if (k as int) < qpos {
                        assert(s@[k as int] != '\"');
                    } else if qpos < k as int {
                        assert(s@[qpos] == '\"');
                    }
                    assert(k as int == qpos);
                    assert(p6 == len);
                }
            }
        }
        return None;
    }
    proof {
        assert(s@ =~= bus_doc_of(chat_id as int, message_id as int, url@)) by {
            assert(s@.subrange(0, p1 as int) == "chat_id = "@);
            assert(s@.subrange(p1 as int, p2 as int) == int_str_of(chat_id as int));
            assert(s@.subrange(p2 as int, p3 as int) == "\nmessage_id = "@);
            assert(s@.subrange(p3 as int, p4 as int) == int_str_of(message_id as int));
            assert(s@.subrange(p4 as int, p5 as int) == "\nurl = \""@);
            assert(s@.subrange(p5 as int, k as int) == url@);
            assert(s@.subrange(k as int, p6 as int) == "\"\n"@);
            assert(p6 == s@.len());
        }
    }
    Some(BotMessage { chat_id, message_id, url })
}

} // verus!
