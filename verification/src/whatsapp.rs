//! WhatsApp adapter rules: webhook query decoding and verification, phone
//! number normalisation, content truncation and message field extraction.

use vstd::prelude::*;

use crate::platform::push_str;
use crate::strmap::StrMap;
use crate::text::{chars_of, find_char, index_of_char, lemma_index_of_char_bounds, push_char, split_on, str_eq};

verus! {

/// WhatsApp Cloud API configuration.
#[derive(Debug, Clone)]
pub struct WhatsAppConfig {
    pub access_token: String,
    pub phone_number_id: String,
    pub business_account_id: String,
    pub webhook_verify_token: String,
    pub api_version: String,
    pub allowed_numbers: Vec<String>,
    pub default_language: String,
}

/// The smaller of two numbers.
pub fn min(a: usize, b: usize) -> (m: usize)
    ensures
        m == if a < b {
            a
        } else {
            b
        },
{
    if a < b {
        a
    } else {
        b
    }
}

// ---------------------------------------------------------------------------
// URL decoding
// ---------------------------------------------------------------------------

/// The value of a hexadecimal digit.
pub open spec fn hex_val(c: char) -> Option<nat> {
    if '0' <= c <= '9' {
        Some((c as nat - '0' as nat) as nat)
    } else if 'a' <= c <= 'f' {
        Some((c as nat - 'a' as nat + 10) as nat)
    } else if 'A' <= c <= 'F' {
        Some((c as nat - 'A' as nat + 10) as nat)
    } else {
        None
    }
}

/// The byte a two-character escape denotes, read as base 16 (a leading `+`
/// sign is accepted, as `u8::from_str_radix` does).
pub open spec fn escape_value(a: char, b: char) -> Option<nat> {
    if a == '+' {
        hex_val(b)
    } else if hex_val(a) is Some && hex_val(b) is Some {
        Some(16 * hex_val(a)->0 + hex_val(b)->0)
    } else {
        None
    }
}

/// Form decoding: `+` is a space, `%XX` an ASCII character; anything else
/// (including an escape of a non-ASCII byte) stays as it is.
pub open spec fn url_decoded(s: Seq<char>) -> Seq<char>
    decreases s.len(),
{
    if s.len() == 0 {
        seq![]
    } else if s[0] == '%' && s.len() >= 3 && escape_value(s[1], s[2]) is Some && escape_value(
        s[1],
        s[2],
    )->0 < 0x80 {
        seq![(escape_value(s[1], s[2])->0 as u8) as char] + url_decoded(s.skip(3))
    } else if s[0] == '+' {
        seq![' '] + url_decoded(s.skip(1))
    } else {
        seq![s[0]] + url_decoded(s.skip(1))
    }
}

fn hex_digit(c: char) -> (r: Option<u32>)
    ensures
        match r {
            Some(v) => hex_val(c) == Some(v as nat),
            None => hex_val(c) is None,
        },
{
    if '0' <= c && c <= '9' {
        Some((c as u32) - ('0' as u32))
    } else if 'a' <= c && c <= 'f' {
        Some((c as u32) - ('a' as u32) + 10)
    } else if 'A' <= c && c <= 'F' {
        Some((c as u32) - ('A' as u32) + 10)
    } else {
        None
    }
}

fn escape_byte(a: char, b: char) -> (r: Option<u32>)
    ensures
        match r {
            Some(v) => escape_value(a, b) == Some(v as nat),
            None => escape_value(a, b) is None,
        },
{
    if a == '+' {
        hex_digit(b)
    } else {
        match (hex_digit(a), hex_digit(b)) {
            (Some(x), Some(y)) => Some(16 * x + y),
            _ => None,
        }
    }
}

fn decode_range(v: &[char], a: usize, b: usize) -> (s: String)
    requires
        a <= b <= v@.len(),
    ensures
        s@ == url_decoded(v@.subrange(a as int, b as int)),
{
    let mut out = String::new();
    let mut i: usize = a;
    proof {
        assert(v@.subrange(a as int, b as int).skip(0) =~= v@.subrange(a as int, b as int));
    }
    while i < b
        invariant
            a <= i <= b <= v@.len(),
            out@ + url_decoded(v@.subrange(i as int, b as int)) == url_decoded(
                v@.subrange(a as int, b as int),
            ),
        decreases b - i,
    {
        let ghost t = v@.subrange(i as int, b as int);
        let ghost before = out@;
        if v[i] == '%' && b - i >= 3 {
            if let Some(val) = escape_byte(v[i + 1], v[i + 2]) {
                if val < 0x80 {
                    let ch: char = (val as u8) as char;
                    push_char(&mut out, ch);
                    proof {
                        assert(t[1] == v@[i + 1]);
                        assert(t[2] == v@[i + 2]);
                        assert(t.skip(3) =~= v@.subrange(i + 3, b as int));
                        assert(before + url_decoded(t) =~= out@ + url_decoded(t.skip(3)));
                    }
                    i = i + 3;
                    continue;
                }
            }
        }
        if v[i] == '+' {
            push_char(&mut out, ' ');
        } else {
            push_char(&mut out, v[i]);
        }
        proof {
            assert(t[0] == v@[i as int]);
            if t.len() >= 3 {
                assert(t[1] == v@[i + 1]);
                assert(t[2] == v@[i + 2]);
            }
            assert(t.skip(1) =~= v@.subrange(i + 1, b as int));
            assert(before + url_decoded(t) =~= out@ + url_decoded(t.skip(1)));
        }
        i = i + 1;
    }
    proof {
        assert(v@.subrange(b as int, b as int) =~= Seq::<char>::empty());
        assert(out@ + Seq::<char>::empty() =~= out@);
    }
    out
}

/// Decodes a form-encoded string.
pub fn url_decode(s: &str) -> (r: String)
    ensures
        r@ == url_decoded(s@),
{
    let v = chars_of(s);
    proof {
        assert(v@.subrange(0, v@.len() as int) =~= v@);
    }
    decode_range(v.as_slice(), 0, v.len())
}

// ---------------------------------------------------------------------------
// Query strings
// ---------------------------------------------------------------------------

/// The key of a `key=value` pair (the whole pair when it holds no `=`).
pub open spec fn pair_key(p: Seq<char>) -> Seq<char> {
    let e = index_of_char(p, '=');
    if e < 0 {
        p
    } else {
        p.take(e)
    }
}

/// The value of a `key=value` pair (empty when it holds no `=`).
pub open spec fn pair_value(p: Seq<char>) -> Seq<char> {
    let e = index_of_char(p, '=');
    if e < 0 {
        seq![]
    } else {
        p.skip(e + 1)
    }
}

/// Adds the decoded pairs to `m` in order; a later key replaces an earlier.
pub open spec fn add_pairs(m: Map<Seq<char>, Seq<char>>, pairs: Seq<Seq<char>>) -> Map<
    Seq<char>,
    Seq<char>,
>
    decreases pairs.len(),
{
    if pairs.len() == 0 {
        m
    } else {
        add_pairs(
            m.insert(url_decoded(pair_key(pairs[0])), url_decoded(pair_value(pairs[0]))),
            pairs.skip(1),
        )
    }
}

/// The parameters of a query string `k1=v1&k2=v2...`.
pub open spec fn query_params(q: Seq<char>) -> Map<Seq<char>, Seq<char>> {
    if q.len() == 0 {
        Map::empty()
    } else {
        add_pairs(Map::empty(), split_on(q, '&'))
    }
}

/// Parses a URL-encoded query string into its parameters.
pub fn parse_url_encoded(query: &str) -> (params: StrMap<String>)
    ensures
        params.wf(),
        params@.map_values(|s: String| s@) == query_params(query@),
{
    let mut params: StrMap<String> = StrMap::new();
    let v = chars_of(query);
    if v.len() == 0 {
        assert(params@.map_values(|s: String| s@) =~= Map::<Seq<char>, Seq<char>>::empty());
        return params;
    }
    let n = v.len();
    let mut a: usize = 0;
    let mut done = false;
    proof {
        assert(v@.skip(0) =~= v@);
        assert(params@.map_values(|s: String| s@) =~= Map::<Seq<char>, Seq<char>>::empty());
    }
    while !done
        invariant
            params.wf(),
            n == v@.len(),
            a <= n,
            !done ==> add_pairs(params@.map_values(|s: String| s@), split_on(v@.skip(a as int), '&'))
                == query_params(query@),
            done ==> params@.map_values(|s: String| s@) == query_params(query@),
            v@ == query@,
            n > 0,
        decreases n - a + if done { 0int } else { 1int },
    {
        let ghost rest = v@.skip(a as int);
        let b = match find_char(v.as_slice(), '&', a) {
            Some(i) => i,
            None => n,
        };
        proof {
            lemma_index_of_char_bounds(rest, '&');
        }
        let ghost pair = v@.subrange(a as int, b as int);
        let eq = find_char(v.as_slice(), '=', a);
        let (k, val) = match eq {
            Some(e) if e < b => (decode_range(v.as_slice(), a, e), decode_range(v.as_slice(), e + 1, b)),
            _ => (decode_range(v.as_slice(), a, b), String::new()),
        };
        proof {
            let t = v@.skip(a as int);
            lemma_index_of_char_bounds(t, '=');
            lemma_index_of_char_bounds(pair, '=');
            assert(pair =~= rest.take(b - a));
            match eq {
                Some(e) => {
                    if e < b {
                        assert forall|j: int| 0 <= j < e - a implies #[trigger] pair[j] != '=' by {
                            assert(pair[j] == t[j]);
                        }
                        assert(pair[e - a] == t[e - a]);
                        crate::text::lemma_index_of_char(pair, '=', e - a);
                        assert(pair.take(e - a) =~= v@.subrange(a as int, e as int));
                        assert(pair.skip(e - a + 1) =~= v@.subrange(e + 1, b as int));
                    } else {
                        assert forall|j: int| 0 <= j < pair.len() implies #[trigger] pair[j] != '='
                            by {
                            assert(pair[j] == t[j]);
                        }
                        crate::text::lemma_index_of_char(pair, '=', pair.len() as int);
                    }
                },
                None => {
                    assert forall|j: int| 0 <= j < pair.len() implies #[trigger] pair[j] != '=' by {
                        assert(pair[j] == t[j]);
                    }
                    crate::text::lemma_index_of_char(pair, '=', pair.len() as int);
                },
            }
            assert(url_decoded(Seq::<char>::empty()) == Seq::<char>::empty());
        }
        let ghost before = params@.map_values(|s: String| s@);
        proof {
            assert(split_on(rest, '&')[0] == pair) by {
                if b < n {
                    assert(rest.take(b - a) =~= pair);
                } else {
                    assert(rest =~= pair);
                }
            }
            assert(add_pairs(before, split_on(rest, '&')) == add_pairs(
                before.insert(url_decoded(pair_key(pair)), url_decoded(pair_value(pair))),
                split_on(rest, '&').skip(1),
            ));
        }
        params.insert(k, val);
        proof {
            assert(params@.map_values(|s: String| s@) =~= before.insert(
                url_decoded(pair_key(pair)),
                url_decoded(pair_value(pair)),
            ));
        }
        if b == n {
            proof {
                assert(rest.take(b - a) =~= rest);
                assert(split_on(rest, '&') == seq![rest]);
                assert(seq![rest].skip(1) =~= Seq::<Seq<char>>::empty());
            }
            done = true;
        } else {
            proof {
                assert(rest.skip(b - a + 1) =~= v@.skip(b + 1));
                assert(split_on(rest, '&').skip(1) =~= split_on(v@.skip(b + 1), '&'));
            }
            a = b + 1;
        }
    }
    params
}

/// The answer to a webhook verification request: `(status, body)`.
pub open spec fn challenge_answer(
    params: Map<Seq<char>, Seq<char>>,
    verify_token: Seq<char>,
) -> (Seq<char>, Seq<char>) {
    if !params.contains_key("hub.mode"@) || params["hub.mode"@] != "subscribe"@ {
        ("400 Bad Request"@, "Forbidden"@)
    } else if !params.contains_key("hub.verify_token"@) || params["hub.verify_token"@]
        != verify_token {
        ("403 Forbidden"@, "Wrong verify token"@)
    } else if params.contains_key("hub.challenge"@) {
        ("200 OK"@, params["hub.challenge"@])
    } else {
        ("200 OK"@, Seq::<char>::empty())
    }
}

/// Answers a webhook verification request (`GET ?hub.mode=subscribe&...`).
pub fn verify_challenge_response(verify_token: &str, query: &str) -> (r: (String, String))
    ensures
        (r.0@, r.1@) == challenge_answer(query_params(query@), verify_token@),
{
    let params = parse_url_encoded(query);
    let ghost pm = params@.map_values(|s: String| s@);
    let subscribe = "subscribe".to_owned();
    let token = verify_token.to_owned();
    let mode_ok = match params.get("hub.mode") {
        Some(m) => *m == subscribe,
        None => false,
    };
    if !mode_ok {
        return ("400 Bad Request".to_owned(), "Forbidden".to_owned());
    }
    let token_ok = match params.get("hub.verify_token") {
        Some(t) => *t == token,
        None => false,
    };
    if !token_ok {
        return ("403 Forbidden".to_owned(), "Wrong verify token".to_owned());
    }
    match params.get("hub.challenge") {
        Some(c) => ("200 OK".to_owned(), c.clone()),
        None => ("200 OK".to_owned(), String::new()),
    }
}

// ---------------------------------------------------------------------------
// Phone numbers and content
// ---------------------------------------------------------------------------

/// The ASCII digits of `s`, in order.
pub open spec fn ascii_digits(s: Seq<char>) -> Seq<char> {
    s.filter(|c: char| '0' <= c <= '9')
}

/// A phone number: its digits when there are at least ten, else the raw
/// text.
pub open spec fn normalized_phone(raw: Seq<char>) -> Seq<char> {
    if ascii_digits(raw).len() >= 10 {
        ascii_digits(raw)
    } else {
        raw
    }
}

/// Normalises a phone number to its digits.
pub fn normalize_phone_number(raw: &str) -> (r: String)
    ensures
        r@ == normalized_phone(raw@),
{
    let v = chars_of(raw);
    let mut cleaned = String::new();
    let ghost f = |c: char| '0' <= c <= '9';
    let mut n: usize = 0;
    let mut i: usize = 0;
    while i < v.len()
        invariant
            v@ == raw@,
            i <= v@.len(),
            cleaned@ == v@.take(i as int).filter(f),
            n == cleaned@.len(),
            n <= i,
            f == (|c: char| '0' <= c <= '9'),
        decreases v.len() - i,
    {
        proof {
            assert(v@.take(i + 1 as int) =~= v@.take(i as int).push(v@[i as int]));
            v@.take(i as int).lemma_filter_push(v@[i as int], f);
        }
        let c = v[i];
        if '0' <= c && c <= '9' {
            push_char(&mut cleaned, c);
            n = n + 1;
        }
        i = i + 1;
    }
    proof {
        assert(v@.take(v@.len() as int) =~= v@);
    }
    if n >= 10 {
        cleaned
    } else {
        raw.to_owned()
    }
}

/// The first `max_len` characters of `content`.
pub fn trancate_content(content: &str, max_len: usize) -> (r: String)
    ensures
        r@ == content@.take(if max_len < content@.len() {
            max_len as int
        } else {
            content@.len() as int
        }),
{
    let v = chars_of(content);
    let end = min(max_len, v.len());
    crate::text::string_of_range(v.as_slice(), 0, end)
}

// ---------------------------------------------------------------------------
// Message fields
// ---------------------------------------------------------------------------

/// The fields of an incoming WhatsApp message that the adapter reads.
#[derive(Debug, Clone)]
pub struct WaMessageFields {
    /// `text.body`
    pub text_body: Option<String>,
    /// `image.caption`
    pub image_caption: Option<String>,
    /// `image.id`
    pub image_id: Option<String>,
    /// `document.caption`
    pub document_caption: Option<String>,
    /// `document.id`
    pub document_id: Option<String>,
    /// `audio.id`
    pub audio_id: Option<String>,
    /// `video.id`
    pub video_id: Option<String>,
}

/// Text contents of a message of type `kind`.
pub open spec fn wa_contents(kind: Seq<char>, m: WaMessageFields) -> Seq<Seq<char>> {
    if kind == "text"@ {
        match m.text_body {
            Some(b) => if b@.len() > 0 {
                seq![b@]
            } else {
                seq![]
            },
            None => seq![],
        }
    } else if kind == "image"@ {
        match m.image_caption {
            Some(c) => seq![c@],
            None => seq![],
        }
    } else if kind == "document"@ {
        match m.document_caption {
            Some(c) => seq![c@],
            None => seq![],
        }
    } else {
        seq![]
    }
}

/// Attachments a message of type `kind` adds, as `(kind, id)` pairs.
pub open spec fn wa_attachments(kind: Seq<char>, m: WaMessageFields) -> Seq<(Seq<char>, Seq<char>)> {
    let with_id = |id: Option<String>, k: Seq<char>|
        match id {
            Some(s) => seq![(k, s@)],
            None => Seq::<(Seq<char>, Seq<char>)>::empty(),
        };
    if kind == "text"@ {
        seq![]
    } else if kind == "image"@ {
        if m.image_id is None && m.image_caption is None {
            seq![("image"@, "<unknown>"@)]
        } else {
            with_id(m.image_id, "image"@)
        }
    } else if kind == "document"@ {
        if m.document_id is None && m.document_caption is None {
            seq![("document"@, "<unknown>"@)]
        } else {
            with_id(m.document_id, "document"@)
        }
    } else if kind == "audio"@ {
        with_id(m.audio_id, "audio"@)
    } else if kind == "video"@ {
        with_id(m.video_id, "video"@)
    } else {
        seq![]
    }
}

/// The view of an attachment list.
pub open spec fn pairs_view(v: Seq<(String, String)>) -> Seq<(Seq<char>, Seq<char>)> {
    v.map_values(|p: (String, String)| (p.0@, p.1@))
}

fn push_attachment(attachments: &mut Vec<(String, String)>, kind: &str, id: String)
    ensures
        pairs_view(final(attachments)@) == pairs_view(old(attachments)@).push((kind@, id@)),
{
    attachments.push((kind.to_owned(), id));
    assert(pairs_view(attachments@) =~= pairs_view(old(attachments)@).push((kind@, id@)));
}

/// Extracts the text contents of a message, adding its attachments.
pub fn extract_message_content(
    message_type: &str,
    msg: &WaMessageFields,
    attachments: &mut Vec<(String, String)>,
) -> (contents: Vec<String>)
    ensures
        contents@.map_values(|s: String| s@) == wa_contents(message_type@, *msg),
        pairs_view(final(attachments)@) == pairs_view(old(attachments)@) + wa_attachments(
            message_type@,
            *msg,
        ),
{
    let mut contents: Vec<String> = Vec::new();
    let ghost a0 = pairs_view(attachments@);
    if str_eq(message_type, "text") {
        if let Some(body) = &msg.text_body {
            if !body.as_str().is_empty() {
                contents.push(body.clone());
            }
        }
    } else if str_eq(message_type, "image") {
        if let Some(caption) = &msg.image_caption {
            contents.push(caption.clone());
        }
        match &msg.image_id {
            Some(id) => push_attachment(attachments, "image", id.clone()),
            None => {
                if msg.image_caption.is_none() {
                    push_attachment(attachments, "image", "<unknown>".to_owned());
                }
            },
        }
    } else if str_eq(message_type, "document") {
        if let Some(caption) = &msg.document_caption {
            contents.push(caption.clone());
        }
        match &msg.document_id {
            Some(id) => push_attachment(attachments, "document", id.clone()),
            None => {
                if msg.document_caption.is_none() {
                    push_attachment(attachments, "document", "<unknown>".to_owned());
                }
            },
        }
    } else if str_eq(message_type, "audio") {
        if let Some(id) = &msg.audio_id {
            push_attachment(attachments, "audio", id.clone());
        }
    } else if str_eq(message_type, "video") {
        if let Some(id) = &msg.video_id {
            push_attachment(attachments, "video", id.clone());
        }
    }
    proof {
        assert(contents@.map_values(|s: String| s@) =~= wa_contents(message_type@, *msg));
        assert(pairs_view(attachments@) =~= a0 + wa_attachments(message_type@, *msg));
    }
    contents
}


/// The longest text body the Cloud API is sent.
pub const WHATSAPP_MESSAGE_LIMIT: usize = 4096;

/// What sending a reply posts: where, with which bearer header, to which
/// number, and the text body.
#[derive(Debug)]
pub struct WhatsAppSend {
    pub endpoint: String,
    pub authorization: String,
    pub to: String,
    pub body: String,
}

/// Prepares a reply to `user_id`: an empty reply is refused; otherwise the
/// Cloud API endpoint of the phone number, the bearer header, the normalised
/// number and the text cut to `WHATSAPP_MESSAGE_LIMIT` characters.
pub fn send_plan(config: &WhatsAppConfig, user_id: &str, content: &str) -> (r: Result<WhatsAppSend, String>)
    ensures
        match r {
            Err(e) => content@.len() == 0 && e@ == "Cannot send empty message"@,
            Ok(p) => content@.len() > 0 && p.endpoint@ == "https://graph.facebook.com/"@ + config.api_version@ + "/"@
                + config.phone_number_id@ && p.authorization@ == "Bearer "@ + config.access_token@ && p.to@
                == normalized_phone(user_id@) && p.body@ == content@.take(
                if content@.len() < WHATSAPP_MESSAGE_LIMIT {
                    content@.len() as int
                } else {
                    WHATSAPP_MESSAGE_LIMIT as int
                },
            ),
        },
{
    if content.is_empty() {
        return Err("Cannot send empty message".to_owned());
    }
    let mut endpoint = "https://graph.facebook.com/".to_owned();
    push_str(&mut endpoint, config.api_version.as_str());
    push_str(&mut endpoint, "/");
    push_str(&mut endpoint, config.phone_number_id.as_str());
    let mut authorization = "Bearer ".to_owned();
    push_str(&mut authorization, config.access_token.as_str());
    Ok(WhatsAppSend {
        endpoint,
        authorization,
        to: normalize_phone_number(user_id),
        body: trancate_content(content, WHATSAPP_MESSAGE_LIMIT),
    })
}

} // verus!
