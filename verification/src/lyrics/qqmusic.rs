//! What the QQ Music lyrics service sends back, read without the network:
//! the XML of the legacy lyrics download (tags, CDATA, hex-encoded QRC that the
//! `lyrics-crypto` crate decrypts, the `LyricContent` attribute) and the JSON
//! fields of the simple lyrics query.

use vstd::prelude::*;
use vstd::string::*;
use crate::text::{
    append_chars, append_str, chars_of, copy_range, find_char, find_char_exec, is_whitespace, is_ws,
    occurs_at, occurs_at_exec, remove_all, remove_all_exec, string_of, trim, trim_bounds,
    trim_chars,
};

verus! {

/// Lyrics texts as one provider answer holds them.
#[derive(Debug, Clone)]
pub struct RawLyrics {
    pub source: String,
    pub original: String,
    pub translation: Option<String>,
    pub romanization: Option<String>,
}

// ---------------------------------------------------------------------------
// Outside computations
// ---------------------------------------------------------------------------

/// What `lyrics_crypto::decrypter::qrc::decrypter::decrypt_lyrics` makes of a
/// cipher text: the plain lyrics, or `None` when decoding, decryption,
/// decompression or UTF-8 decoding fails.
pub uninterp spec fn qrc_plaintext(cipher: Seq<char>) -> Option<Seq<char>>;

/// Calls `lyrics_crypto::decrypter::qrc::decrypter::decrypt_lyrics`; its result
/// is named `qrc_plaintext` and nothing more is claimed of it.
#[verifier::external_body]
fn decrypt_lyrics(cipher: &str) -> (r: Option<String>)
    ensures
        r is Some <==> qrc_plaintext(cipher@) is Some,
        r matches Some(t) ==> qrc_plaintext(cipher@) == Some(t@),
{
    lyrics_crypto::decrypter::qrc::decrypter::decrypt_lyrics(cipher)
}

/// What `html_escape::decode_html_entities` makes of a text.
pub uninterp spec fn html_entities_decoded(text: Seq<char>) -> Seq<char>;

/// Calls `html_escape::decode_html_entities`; its result is named
/// `html_entities_decoded` and nothing more is claimed of it.
#[verifier::external_body]
fn decode_html_entities(text: &str) -> (r: String)
    ensures
        r@ == html_entities_decoded(text@),
{
    html_escape::decode_html_entities(text).into_owned()
}

/// What `str::to_lowercase` makes of a text (Unicode lowercase mapping).
pub uninterp spec fn lowercased(text: Seq<char>) -> Seq<char>;

/// Calls `str::to_lowercase`; its result is named `lowercased` and nothing
/// more is claimed of it.
#[verifier::external_body]
fn to_lowercase(text: &str) -> (r: String)
    ensures
        r@ == lowercased(text@),
{
    text.to_lowercase()
}

// ---------------------------------------------------------------------------
// Normalized titles and artists
// ---------------------------------------------------------------------------

/// End of the word that starts at `i`.
pub open spec fn word_end(s: Seq<char>, i: int) -> int
    decreases s.len() - i,
{
    if 0 <= i < s.len() && !is_ws(s[i]) {
        word_end(s, i + 1)
    } else {
        i
    }
}

/// The whitespace-separated words from `i` on (`str::split_whitespace`) joined
/// by single spaces; `first` tells whether no word came before.
pub open spec fn joined_words(s: Seq<char>, i: int, first: bool) -> Seq<char>
    decreases s.len() - i,
{
    if i < 0 || i >= s.len() {
        Seq::empty()
    } else if is_ws(s[i]) {
        joined_words(s, i + 1, first)
    } else {
        let e = word_end(s, i + 1);
        if e <= i || e > s.len() {
            Seq::empty()
        } else {
            (if first {
                Seq::empty()
            } else {
                seq![' ']
            }) + s.subrange(i, e) + joined_words(s, e, false)
        }
    }
}

/// Words joined by single spaces, then lowercased.
pub open spec fn normalized(value: Seq<char>) -> Seq<char> {
    lowercased(joined_words(value, 0, true))
}

proof fn lemma_word_end_bounds(s: Seq<char>, i: int)
    requires
        0 <= i <= s.len(),
    ensures
        i <= word_end(s, i) <= s.len(),
    decreases s.len() - i,
{
    if 0 <= i < s.len() && !is_ws(s[i]) {
        lemma_word_end_bounds(s, i + 1);
    }
}

/// Collapses whitespace runs to single spaces, drops it at both ends, and
/// lowercases the result; titles and artists are compared in this form.
pub fn normalize(value: &str) -> (r: String)
    ensures
        r@ == normalized(value@),
{
    let s = chars_of(value);
    let mut out: Vec<char> = Vec::new();
    let mut i: usize = 0;
    let mut first = true;
    while i < s.len()
        invariant
            i <= s.len(),
            out@ + joined_words(s@, i as int, first) == joined_words(s@, 0, true),
        decreases s.len() - i,
    {
        if is_whitespace(s[i]) {
            i = i + 1;
        } else {
            let mut e = i + 1;
            while e < s.len() && !is_whitespace(s[e])
                invariant
                    i < e <= s.len(),
                    word_end(s@, i + 1) == word_end(s@, e as int),
                decreases s.len() - e,
            {
                e = e + 1;
            }
            proof {
                lemma_word_end_bounds(s@, i + 1);
            }
            let ghost o0 = out@;
            let ghost rest = joined_words(s@, e as int, false);
            let ghost sep: Seq<char> = if first {
                Seq::empty()
            } else {
                seq![' ']
            };
            if !first {
                out.push(' ');
            }
            let word = copy_range(&s, i, e);
            append_chars(&mut out, &word);
            assert(o0 + (sep + s@.subrange(i as int, e as int) + rest) =~= out@ + rest);
            first = false;
            i = e;
        }
    }
    assert(out@ + joined_words(s@, i as int, first) =~= out@);
    let joined = string_of(&out);
    to_lowercase(joined.as_str())
}

// ---------------------------------------------------------------------------
// CDATA and hex
// ---------------------------------------------------------------------------

pub open spec fn starts_with(s: Seq<char>, p: Seq<char>) -> bool {
    occurs_at(s, 0, p)
}

pub open spec fn ends_with(s: Seq<char>, p: Seq<char>) -> bool {
    occurs_at(s, s.len() - p.len(), p)
}

/// `<![CDATA[ ... ]]>` unwrapped and trimmed; any other text as it is.
pub open spec fn unwrapped_cdata(v: Seq<char>) -> Seq<char> {
    let open = "<![CDATA["@;
    let close = "]]>"@;
    if starts_with(v, open) && ends_with(v.subrange(open.len() as int, v.len() as int), close) {
        trim(v.subrange(open.len() as int, v.len() - close.len()))
    } else {
        v
    }
}

pub fn unwrap_cdata(value: &str) -> (r: &str)
    ensures
        r@ == unwrapped_cdata(value@),
{
    let s = chars_of(value);
    let open = chars_of("<![CDATA[");
    let close = chars_of("]]>");
    if !occurs_at_exec(&s, 0, &open) {
        return value;
    }
    let rest = copy_range(&s, open.len(), s.len());
    if rest.len() < close.len() || !occurs_at_exec(&rest, rest.len() - close.len(), &close) {
        return value;
    }
    let inner = copy_range(&s, open.len(), s.len() - close.len());
    let (a, b) = trim_bounds(&inner);
    let r = value.substring_char(open.len() + a, open.len() + b);
    assert(r@ =~= inner@.subrange(a as int, b as int));
    r
}

pub open spec fn is_ascii_hex(c: char) -> bool {
    ||| 48 <= (c as u32) <= 57
    ||| 65 <= (c as u32) <= 70
    ||| 97 <= (c as u32) <= 102
}

/// An even number of ASCII hex digits and nothing else. (The byte length that
/// the check counts equals the character count exactly when every character is
/// ASCII, which the digits demand anyway.)
pub open spec fn is_hex_text(v: Seq<char>) -> bool {
    v.len() % 2 == 0 && forall|k: int| 0 <= k < v.len() ==> is_ascii_hex(#[trigger] v[k])
}

pub fn is_hex(value: &str) -> (r: bool)
    ensures
        r == is_hex_text(value@),
{
    let s = chars_of(value);
    let mut k: usize = 0;
    while k < s.len()
        invariant
            k <= s.len(),
            s@ == value@,
            forall|j: int| 0 <= j < k ==> is_ascii_hex(#[trigger] s@[j]),
        decreases s.len() - k,
    {
        let u = s[k] as u32;
        if !((48 <= u && u <= 57) || (65 <= u && u <= 70) || (97 <= u && u <= 102)) {
            return false;
        }
        k = k + 1;
    }
    s.len() % 2 == 0
}

// ---------------------------------------------------------------------------
// Tags of the legacy download
// ---------------------------------------------------------------------------

/// A tag name is a plain word of ASCII letters, so that it stands for itself in
/// the pattern `(?s)<tag(?:\s[^>]*)?>(.*?)</tag>`.
pub open spec fn is_tag_name(tag: Seq<char>) -> bool {
    forall|k: int|
        0 <= k < tag.len() ==> (65 <= (#[trigger] tag[k] as u32) <= 90 || 97 <= (tag[k] as u32)
            <= 122)
}

/// The opening tag `<tag>` or `<tag attributes...>` at `p`: where its content
/// starts.
pub open spec fn open_tag_end(s: Seq<char>, p: int, tag: Seq<char>) -> Option<int> {
    let a = p + 1 + tag.len();
    if 0 <= p && a < s.len() && s[p] == '<' && occurs_at(s, p + 1, tag) {
        if s[a] == '>' {
            Some(a + 1)
        } else if is_ws(s[a]) {
            let g = find_char(s, '>', a + 1);
            if g < s.len() {
                Some(g + 1)
            } else {
                None
            }
        } else {
            None
        }
    } else {
        None
    }
}

/// The closing tag `</tag>` at `q`.
pub open spec fn close_tag_at(s: Seq<char>, q: int, tag: Seq<char>) -> bool {
    0 <= q && q + 2 + tag.len() < s.len() && s[q] == '<' && s[q + 1] == '/' && occurs_at(
        s,
        q + 2,
        tag,
    ) && s[q + 2 + tag.len()] == '>'
}

/// First closing tag at or after `q`, or the length.
pub open spec fn first_close(s: Seq<char>, q: int, tag: Seq<char>) -> int
    decreases s.len() - q,
{
    if q < 0 || q >= s.len() {
        s.len() as int
    } else if close_tag_at(s, q, tag) {
        q
    } else {
        first_close(s, q + 1, tag)
    }
}

/// The element that starts at `p`, content lazily up to the first closing tag.
pub open spec fn element_at(s: Seq<char>, p: int, tag: Seq<char>) -> Option<(int, int)> {
    match open_tag_end(s, p, tag) {
        Some(o) => {
            let q = first_close(s, o, tag);
            if q < s.len() {
                Some((o, q))
            } else {
                None
            }
        },
        None => None,
    }
}

/// The leftmost element at or after `p`.
pub open spec fn first_element(s: Seq<char>, p: int, tag: Seq<char>) -> Option<(int, int)>
    decreases s.len() - p,
{
    if p < 0 || p >= s.len() {
        None
    } else {
        match element_at(s, p, tag) {
            Some(m) => Some(m),
            None => first_element(s, p + 1, tag),
        }
    }
}

/// The trimmed, CDATA-unwrapped content of the first `tag` element, unless empty.
pub open spec fn tag_value(xml: Seq<char>, tag: Seq<char>) -> Option<Seq<char>> {
    match first_element(xml, 0, tag) {
        Some((o, q)) => {
            let v = unwrapped_cdata(trim(xml.subrange(o, q)));
            if v.len() == 0 {
                None
            } else {
                Some(v)
            }
        },
        None => None,
    }
}

fn open_tag_end_at(s: &Vec<char>, p: usize, tag: &Vec<char>) -> (r: Option<usize>)
    requires
        p < s.len(),
    ensures
        r is Some <==> open_tag_end(s@, p as int, tag@) is Some,
        r matches Some(o) ==> open_tag_end(s@, p as int, tag@) == Some(o as int) && o <= s.len(),
{
    if s[p] != '<' || tag.len() >= s.len() - p - 1 {
        return None;
    }
    if !occurs_at_exec(s, p + 1, tag) {
        return None;
    }
    let a = p + 1 + tag.len();
    if s[a] == '>' {
        Some(a + 1)
    } else if is_whitespace(s[a]) {
        let g = find_char_exec(s, '>', a + 1);
        if g < s.len() {
            Some(g + 1)
        } else {
            None
        }
    } else {
        None
    }
}

fn close_tag_at_exec(s: &Vec<char>, q: usize, tag: &Vec<char>) -> (r: bool)
    requires
        q < s.len(),
    ensures
        r == close_tag_at(s@, q as int, tag@),
{
    let room = s.len() - q;
    if room < 3 || tag.len() > room - 3 {
        return false;
    }
    s[q] == '<' && s[q + 1] == '/' && occurs_at_exec(s, q + 2, tag) && s[q + 2 + tag.len()] == '>'
}

fn first_element_exec(s: &Vec<char>, tag: &Vec<char>) -> (r: Option<(usize, usize)>)
    ensures
        r is Some <==> first_element(s@, 0, tag@) is Some,
        r matches Some((o, q)) ==> first_element(s@, 0, tag@) == Some((o as int, q as int)) && o
            <= q <= s.len(),
{
    let mut p: usize = 0;
    while p < s.len()
        invariant
            p <= s.len(),
            first_element(s@, 0, tag@) == first_element(s@, p as int, tag@),
        decreases s.len() - p,
    {
        match open_tag_end_at(s, p, tag) {
            Some(o) => {
                let mut q = o;
                while q < s.len() && !close_tag_at_exec(s, q, tag)
                    invariant
                        o <= q <= s.len(),
                        first_close(s@, o as int, tag@) == first_close(s@, q as int, tag@),
                    decreases s.len() - q,
                {
                    q = q + 1;
                }
                if q < s.len() {
                    return Some((o, q));
                }
            },
            None => {},
        }
        p = p + 1;
    }
    None
}

/// The value of the first `tag` element: trimmed, CDATA unwrapped, `None` when
/// absent or empty.
fn tag_value_of(xml: &Vec<char>, tag: &Vec<char>) -> (r: Option<Vec<char>>)
    ensures
        r is Some <==> tag_value(xml@, tag@) is Some,
        r matches Some(v) ==> tag_value(xml@, tag@) == Some(v@),
{
    match first_element_exec(xml, tag) {
        Some((o, q)) => {
            let body = copy_range(xml, o, q);
            let trimmed = trim_chars(&body);
            let trimmed_str = string_of(&trimmed);
            let v = chars_of(unwrap_cdata(trimmed_str.as_str()));
            if v.len() == 0 {
                None
            } else {
                Some(v)
            }
        },
        None => None,
    }
}

// ---------------------------------------------------------------------------
// LyricContent
// ---------------------------------------------------------------------------

/// `LyricContent="..."`: the first occurrence whose value is closed by a quote,
/// as the pattern `LyricContent="([^"]*)"` finds it; the value's bounds.
pub open spec fn lyric_content_from(s: Seq<char>, p: int) -> Option<(int, int)>
    decreases s.len() - p,
{
    if p < 0 || p >= s.len() {
        None
    } else if occurs_at(s, p, "LyricContent=\""@) {
        let a = p + "LyricContent=\""@.len();
        let b = find_char(s, '"', a);
        if b < s.len() {
            Some((a, b))
        } else {
            lyric_content_from(s, p + 1)
        }
    } else {
        lyric_content_from(s, p + 1)
    }
}

/// The decoded `LyricContent` attribute when there is one, the text otherwise.
pub open spec fn lyric_content(v: Seq<char>) -> Seq<char> {
    match lyric_content_from(v, 0) {
        Some((a, b)) => html_entities_decoded(v.subrange(a, b)),
        None => v,
    }
}

/// The lyrics a decrypted QRC document holds.
pub fn extract_lyric_content(value: &str) -> (r: String)
    ensures
        r@ == lyric_content(value@),
{
    let s = chars_of(value);
    let key = chars_of("LyricContent=\"");
    let mut p: usize = 0;
    while p < s.len()
        invariant
            p <= s.len(),
            s@ == value@,
            key@ == "LyricContent=\""@,
            lyric_content_from(s@, 0) == lyric_content_from(s@, p as int),
        decreases s.len() - p,
    {
        if occurs_at_exec(&s, p, &key) {
            let a = p + key.len();
            let b = find_char_exec(&s, '"', a);
            if b < s.len() {
                let content = string_of(&copy_range(&s, a, b));
                return decode_html_entities(content.as_str());
            }
        }
        p = p + 1;
    }
    String::from_str(value)
}

pub open spec fn decrypt_failed_message() -> Seq<char> {
    "QQ 音乐 QRC 解密或解压失败"@
}

/// What `extract_and_decrypt` gives for a tag: nothing for an absent or empty
/// element; hex content decrypted (an error when that fails); the lyrics of
/// the resulting text.
pub open spec fn extracted(xml: Seq<char>, tag: Seq<char>) -> Result<Option<Seq<char>>, Seq<char>> {
    match tag_value(xml, tag) {
        None => Ok(None),
        Some(v) => if is_hex_text(v) {
            match qrc_plaintext(v) {
                Some(plain) => Ok(Some(lyric_content(plain))),
                None => Err(decrypt_failed_message()),
            }
        } else {
            Ok(Some(lyric_content(v)))
        },
    }
}

pub open spec fn extracted_view(r: Result<Option<String>, String>) -> Result<Option<Seq<char>>, Seq<char>> {
    match r {
        Ok(Some(t)) => Ok(Some(t@)),
        Ok(None) => Ok(None),
        Err(e) => Err(e@),
    }
}

/// The lyrics of the first `tag` element of a legacy download.
pub fn extract_and_decrypt(xml: &str, tag: &str) -> (r: Result<Option<String>, String>)
    requires
        is_tag_name(tag@),
    ensures
        extracted_view(r) == extracted(xml@, tag@),
{
    let s = chars_of(xml);
    let t = chars_of(tag);
    let value = match tag_value_of(&s, &t) {
        Some(v) => v,
        None => return Ok(None),
    };
    let value_str = string_of(&value);
    if is_hex(value_str.as_str()) {
        match decrypt_lyrics(value_str.as_str()) {
            Some(plain) => Ok(Some(extract_lyric_content(plain.as_str()))),
            None => Err(String::from_str("QQ 音乐 QRC 解密或解压失败")),
        }
    } else {
        Ok(Some(extract_lyric_content(value_str.as_str())))
    }
}

// ---------------------------------------------------------------------------
// Provider answers
// ---------------------------------------------------------------------------

pub open spec fn missing_original_message() -> Seq<char> {
    "QQ 音乐 QRC 原文解密失败"@
}

/// The legacy download with comment markers removed, as it is searched.
pub open spec fn uncommented(text: Seq<char>) -> Seq<char> {
    remove_all(remove_all(text, "<!--"@), "-->"@)
}

pub open spec fn raw_view(r: RawLyrics) -> (Seq<char>, Seq<char>, Option<Seq<char>>, Option<Seq<char>>) {
    (
        r.source@,
        r.original@,
        match r.translation {
            Some(t) => Some(t@),
            None => None,
        },
        match r.romanization {
            Some(t) => Some(t@),
            None => None,
        },
    )
}

/// The lyrics of a legacy download: `content` is required, `contentts` and
/// `contentroma` optional; any decryption failure is an error.
pub open spec fn legacy_lyrics(text: Seq<char>) -> Result<
    (Seq<char>, Seq<char>, Option<Seq<char>>, Option<Seq<char>>),
    Seq<char>,
> {
    let x = uncommented(text);
    match extracted(x, "content"@) {
        Err(e) => Err(e),
        Ok(None) => Err(missing_original_message()),
        Ok(Some(original)) => match extracted(x, "contentts"@) {
            Err(e) => Err(e),
            Ok(translation) => match extracted(x, "contentroma"@) {
                Err(e) => Err(e),
                Ok(romanization) => Ok(("QQMusic QRC"@, original, translation, romanization)),
            },
        },
    }
}

proof fn lemma_tag_names()
    ensures
        is_tag_name("content"@),
        is_tag_name("contentts"@),
        is_tag_name("contentroma"@),
{
    reveal_strlit("content");
    reveal_strlit("contentts");
    reveal_strlit("contentroma");
}

/// Reads the body of the legacy lyrics download.
pub fn legacy_lyrics_from_response(text: &str) -> (r: Result<RawLyrics, String>)
    ensures
        match r {
            Ok(raw) => legacy_lyrics(text@) == Ok::<_, Seq<char>>(raw_view(raw)),
            Err(e) => legacy_lyrics(text@) == Err::<(Seq<char>, Seq<char>, Option<Seq<char>>, Option<Seq<char>>), _>(e@),
        },
{
    proof {
        lemma_tag_names();
    }
    let s = chars_of(text);
    let s = remove_all_exec(&s, &chars_of("<!--"));
    let s = remove_all_exec(&s, &chars_of("-->"));
    let x = string_of(&s);
    let original = match extract_and_decrypt(x.as_str(), "content") {
        Ok(Some(o)) => o,
        Ok(None) => return Err(String::from_str("QQ 音乐 QRC 原文解密失败")),
        Err(e) => return Err(e),
    };
    let translation = match extract_and_decrypt(x.as_str(), "contentts") {
        Ok(t) => t,
        Err(e) => return Err(e),
    };
    let romanization = match extract_and_decrypt(x.as_str(), "contentroma") {
        Ok(t) => t,
        Err(e) => return Err(e),
    };
    Ok(
        RawLyrics {
            source: String::from_str("QQMusic QRC"),
            original,
            translation,
            romanization,
        },
    )
}

/// The answer of the simple lyrics query: the original (empty when absent) and
/// the translation unless it is blank.
pub fn simple_lyrics(lyric: Option<String>, trans: Option<String>) -> (r: RawLyrics)
    ensures
        r.source@ == "QQMusic LRC"@,
        r.original@ == match lyric {
            Some(l) => l@,
            None => Seq::<char>::empty(),
        },
        r.translation == match trans {
            Some(t) => if trim(t@).len() > 0 {
                Some(t)
            } else {
                None
            },
            None => None,
        },
        r.romanization is None,
{
    let original = match lyric {
        Some(l) => l,
        None => String::new(),
    };
    let translation = match trans {
        Some(t) => {
            let tc = chars_of(t.as_str());
            if trim_chars(&tc).len() > 0 {
                Some(t)
            } else {
                None
            }
        },
        None => None,
    };
    RawLyrics { source: String::from_str("QQMusic LRC"), original, translation, romanization: None }
}

pub open spec fn missing_title_message() -> Seq<char> {
    "当前歌曲缺少歌名"@
}

/// The search words for a track: `title artist` (the artist may be empty);
/// a track without a title cannot be searched.
pub fn search_words(title: Option<&str>, artist: Option<&str>) -> (r: Result<String, String>)
    ensures
        match title {
            None => r matches Err(e) && e@ == missing_title_message(),
            Some(t) => r matches Ok(w) && w@ == t@ + " "@ + match artist {
                Some(a) => a@,
                None => Seq::<char>::empty(),
            },
        },
{
    match title {
        None => Err(String::from_str("当前歌曲缺少歌名")),
        Some(t) => {
            let mut words = String::from_str(t);
            words.append(" ");
            match artist {
                Some(a) => {
                    words.append(a);
                },
                None => {},
            }
            Ok(words)
        },
    }
}

/// Whether an answer holds usable lyrics: an original that is not blank.
pub fn has_lyrics(raw: &RawLyrics) -> (r: bool)
    ensures
        r == (trim(raw.original@).len() > 0),
{
    let c = chars_of(raw.original.as_str());
    trim_chars(&c).len() > 0
}

/// How one candidate song's lyrics are asked for.
#[derive(Debug, Clone, Copy, PartialEq, Eq, Structural)]
pub enum LyricsFetch {
    /// The legacy download, which carries QRC.
    Legacy,
    /// The simple query, which carries LRC.
    Simple,
}

/// At most this many of the best-ranked songs are tried.
pub const MAX_CANDIDATES: usize = 5;

pub open spec fn attempt_at(k: int) -> (usize, LyricsFetch) {
    ((k / 2) as usize, if k % 2 == 0 {
        LyricsFetch::Legacy
    } else {
        LyricsFetch::Simple
    })
}

/// The order in which lyrics are asked for, given `songs` ranked songs: the
/// best-ranked songs first, at most five of them, each by the legacy download
/// and then by the simple query.
pub fn lyrics_attempts(songs: usize) -> (r: Vec<(usize, LyricsFetch)>)
    ensures
        r@.len() == 2 * (if songs < MAX_CANDIDATES {
            songs
        } else {
            MAX_CANDIDATES
        }),
        forall|k: int| 0 <= k < r@.len() ==> #[trigger] r@[k] == attempt_at(k),
{
    let n = if songs < MAX_CANDIDATES {
        songs
    } else {
        MAX_CANDIDATES
    };
    let mut r: Vec<(usize, LyricsFetch)> = Vec::new();
    let mut i: usize = 0;
    while i < n
        invariant
            i <= n <= MAX_CANDIDATES,
            r@.len() == 2 * i,
            forall|k: int| 0 <= k < r@.len() ==> #[trigger] r@[k] == attempt_at(k),
        decreases n - i,
    {
        r.push((i, LyricsFetch::Legacy));
        r.push((i, LyricsFetch::Simple));
        proof {
            assert(attempt_at(2 * i) == (i, LyricsFetch::Legacy));
            assert(attempt_at(2 * i + 1) == (i, LyricsFetch::Simple));
        }
        i = i + 1;
    }
    r
}

/// An answer ends the search when it arrived and holds usable lyrics.
pub fn usable_answer(answer: Result<RawLyrics, String>) -> (r: Option<RawLyrics>)
    ensures
        match answer {
            Ok(raw) => if trim(raw.original@).len() > 0 {
                r == Some(raw)
            } else {
                r is None
            },
            Err(_) => r is None,
        },
{
    match answer {
        Ok(raw) => if has_lyrics(&raw) {
            Some(raw)
        } else {
            None
        },
        Err(_) => None,
    }
}

pub open spec fn no_lyrics_found_text() -> Seq<char> {
    "QQ 音乐没有返回可用的同步歌词"@
}

/// A lyrics search over ranked songs: the attempts in order and how many have
/// been answered. Each answer either ends the search with usable lyrics, or
/// the next attempt follows; when none is left the search fails.
pub struct LyricsSearch {
    pub attempts: Vec<(usize, LyricsFetch)>,
    pub next: usize,
}

impl LyricsSearch {
    pub open spec fn wf(self) -> bool {
        self.next <= self.attempts@.len()
    }

    /// A search over `songs` ranked songs, nothing asked yet.
    pub fn new(songs: usize) -> (r: Self)
        ensures
            r.wf(),
            r.next == 0,
            r.attempts@.len() == 2 * (if songs < MAX_CANDIDATES {
                songs
            } else {
                MAX_CANDIDATES
            }),
            forall|k: int| 0 <= k < r.attempts@.len() ==> #[trigger] r.attempts@[k] == attempt_at(k),
    {
        LyricsSearch { attempts: lyrics_attempts(songs), next: 0 }
    }

    /// The attempt to make now, if any is left.
    pub fn next_attempt(&self) -> (r: Option<(usize, LyricsFetch)>)
        requires
            self.wf(),
        ensures
            self.next < self.attempts@.len() ==> r == Some(self.attempts@[self.next as int]),
            self.next >= self.attempts@.len() ==> r is None,
    {
        if self.next < self.attempts.len() {
            Some(self.attempts[self.next])
        } else {
            None
        }
    }

    /// The answer to the current attempt. Usable lyrics end the search;
    /// otherwise the next attempt comes, and with none left the search fails.
    /// `None` means the search goes on.
    pub fn answered(&mut self, answer: Result<RawLyrics, String>) -> (r: Option<Result<RawLyrics, String>>)
        requires
            old(self).wf(),
            old(self).next < old(self).attempts@.len(),
        ensures
            final(self).wf(),
            final(self).attempts == old(self).attempts,
            final(self).next == old(self).next + 1,
            match answer {
                Ok(raw) => if trim(raw.original@).len() > 0 {
                    r == Some(Ok::<RawLyrics, String>(raw))
                } else if final(self).next < final(self).attempts@.len() {
                    r is None
                } else {
                    r matches Some(Err(e)) && e@ == no_lyrics_found_text()
                },
                Err(_) => if final(self).next < final(self).attempts@.len() {
                    r is None
                } else {
                    r matches Some(Err(e)) && e@ == no_lyrics_found_text()
                },
            },
    {
        let count = self.attempts.len();
        self.next = self.next + 1;
        match usable_answer(answer) {
            Some(raw) => Some(Ok(raw)),
            None => if self.next < count {
                None
            } else {
                Some(Err(String::from_str("QQ 音乐没有返回可用的同步歌词")))
            },
        }
    }

    /// The outcome of a search that had nothing to ask: no lyrics.
    pub fn nothing_to_ask(&self) -> (r: Option<String>)
        requires
            self.wf(),
        ensures
            self.next >= self.attempts@.len() <==> r is Some,
            r matches Some(e) ==> e@ == no_lyrics_found_text(),
    {
        if self.next >= self.attempts.len() {
            Some(String::from_str("QQ 音乐没有返回可用的同步歌词"))
        } else {
            None
        }
    }
}

} // verus!
