//! The persisted settings record and its on-disk form.
//!
//! The record is stored as one JSON document of a fixed shape,
//! `{"library_path":<string or null>,"discord_presence":<bool>}`, with
//! the path kept as raw bytes and `"` and `\` escaped with a backslash.
//! [`encode_config`] produces exactly that document and [`parse_config`]
//! reads it back, allowing insignificant whitespace between the tokens;
//! the fields must come in this order, and only the escapes the encoder
//! emits are read. A path byte below 0x20 is written raw, so such a
//! document is not strict JSON, but the parser reads it back and the
//! round trip holds for every byte sequence.
//! [`lemma_config_round_trip`] proves that reloading a saved record
//! always yields the record that was saved. A file that does not parse
//! is treated by the shell as "no configuration yet".

use vstd::prelude::*;

verus! {

/// The settings that survive a restart: the library directory, if one
/// was ever chosen (its path as raw bytes), and whether the presence
/// service is used.
#[derive(Clone, Debug, PartialEq)]
pub struct Config {
    pub library_path: Option<Vec<u8>>,
    pub discord_presence: bool,
}

/// The mathematical value of a settings record.
pub struct ConfigV {
    pub library_path: Option<Seq<u8>>,
    pub discord_presence: bool,
}

impl View for Config {
    type V = ConfigV;

    open spec fn view(&self) -> ConfigV {
        ConfigV {
            library_path: match self.library_path {
                Some(v) => Some(v@),
                None => None,
            },
            discord_presence: self.discord_presence,
        }
    }
}

impl Config {
    /// Remember `path` as the library directory. The shell rewrites the
    /// configuration file afterwards.
    pub fn set_library(&mut self, path: Vec<u8>)
        ensures
            *final(self) == (Config { library_path: Some(path), ..*old(self) }),
    {
        self.library_path = Some(path);
    }

    /// Switch presence reporting on or off. The shell rewrites the
    /// configuration file afterwards.
    pub fn set_discord_presence(&mut self, enabled: bool)
        ensures
            *final(self) == (Config { discord_presence: enabled, ..*old(self) }),
    {
        self.discord_presence = enabled;
    }
}

/// Where the settings file lives, relative to the user's home
/// directory: `/.config/attention/attention.json`.
pub open spec fn config_rel_path() -> Seq<u8> {
    seq![47u8, 46, 99, 111, 110, 102, 105, 103, 47, 97, 116, 116, 101, 110, 116, 105, 111, 110, 47, 97, 116, 116, 101, 110, 116, 105, 111, 110, 46, 106, 115, 111, 110]
}

/// The settings file's full path: the home directory, as raw path
/// bytes, followed by [`config_rel_path`].
pub fn config_path_bytes(home: &Vec<u8>) -> (r: Vec<u8>)
    ensures
        r@ == home@ + config_rel_path(),
{
    let mut out = home.clone();
    proof {
        assert(out@ =~= home@);
    }
    out.push(47);
    out.push(46);
    out.push(99);
    out.push(111);
    out.push(110);
    out.push(102);
    out.push(105);
    out.push(103);
    out.push(47);
    out.push(97);
    out.push(116);
    out.push(116);
    out.push(101);
    out.push(110);
    out.push(116);
    out.push(105);
    out.push(111);
    out.push(110);
    out.push(47);
    out.push(97);
    out.push(116);
    out.push(116);
    out.push(101);
    out.push(110);
    out.push(116);
    out.push(105);
    out.push(111);
    out.push(110);
    out.push(46);
    out.push(106);
    out.push(115);
    out.push(111);
    out.push(110);
    proof {
        assert(out@ =~= home@ + config_rel_path());
    }
    out
}

/// The byte `"`.
pub const QUOTE: u8 = 34;

/// The byte `\`.
pub const BACKSLASH: u8 = 92;

/// The document's opening, `{"library_path":`.
pub open spec fn json_prefix() -> Seq<u8> {
    seq![123u8, 34, 108, 105, 98, 114, 97, 114, 121, 95, 112, 97, 116, 104, 34, 58]
}

/// The separator between the two fields, `,"discord_presence":`.
pub open spec fn json_mid() -> Seq<u8> {
    seq![44u8, 34, 100, 105, 115, 99, 111, 114, 100, 95, 112, 114, 101, 115, 101, 110, 99, 101, 34, 58]
}

/// The JSON word `null`.
pub open spec fn json_null() -> Seq<u8> {
    seq![110u8, 117, 108, 108]
}

/// The JSON word `true`.
pub open spec fn json_true() -> Seq<u8> {
    seq![116u8, 114, 117, 101]
}

/// The JSON word `false`.
pub open spec fn json_false() -> Seq<u8> {
    seq![102u8, 97, 108, 115, 101]
}

/// Insignificant JSON whitespace: space, tab, line feed, carriage
/// return.
pub open spec fn is_ws(b: u8) -> bool {
    b == 32 || b == 9 || b == 10 || b == 13
}

/// `s` without its leading whitespace.
pub open spec fn skip_ws(s: Seq<u8>) -> Seq<u8>
    decreases s.len(),
{
    if s.len() > 0 && is_ws(s[0]) {
        skip_ws(s.skip(1))
    } else {
        s
    }
}

/// The quoted key `"library_path"`.
pub open spec fn lib_key() -> Seq<u8> {
    seq![34u8, 108, 105, 98, 114, 97, 114, 121, 95, 112, 97, 116, 104, 34]
}

/// The quoted key `"discord_presence"`.
pub open spec fn pres_key() -> Seq<u8> {
    seq![34u8, 100, 105, 115, 99, 111, 114, 100, 95, 112, 114, 101, 115, 101, 110, 99, 101, 34]
}

/// How one path byte stands inside the quoted string: `"` and `\` are
/// preceded by a backslash, every other byte stands as itself.
pub open spec fn escaped_byte(b: u8) -> Seq<u8> {
    if b == QUOTE || b == BACKSLASH {
        seq![BACKSLASH, b]
    } else {
        seq![b]
    }
}

/// A whole path, escaped byte for byte.
pub open spec fn escape_bytes(s: Seq<u8>) -> Seq<u8>
    decreases s.len(),
{
    if s.len() == 0 {
        Seq::empty()
    } else {
        escaped_byte(s[0]) + escape_bytes(s.skip(1))
    }
}

/// The library-path field of the document: `null`, or the escaped path
/// in quotes.
pub open spec fn encode_path(p: Option<Seq<u8>>) -> Seq<u8> {
    match p {
        None => json_null(),
        Some(s) => seq![QUOTE] + escape_bytes(s) + seq![QUOTE],
    }
}

/// The whole document for a record.
pub open spec fn encode_spec(c: ConfigV) -> Seq<u8> {
    json_prefix() + encode_path(c.library_path) + json_mid() + (if c.discord_presence {
        json_true()
    } else {
        json_false()
    }) + seq![125u8]
}

/// Read a quoted string's contents from the front of `s`, which starts
/// just after the opening quote: the bytes up to the first unescaped
/// closing quote, and how many bytes were consumed, closing quote
/// included. `None` when no closing quote is reached.
pub open spec fn unescape_prefix(s: Seq<u8>) -> Option<(Seq<u8>, int)>
    decreases s.len(),
{
    if s.len() == 0 {
        None
    } else if s[0] == QUOTE {
        Some((Seq::empty(), 1int))
    } else if s[0] == BACKSLASH {
        if s.len() >= 2 {
            match unescape_prefix(s.skip(2)) {
                Some(r) => Some((seq![s[1]] + r.0, r.1 + 2)),
                None => None,
            }
        } else {
            None
        }
    } else {
        match unescape_prefix(s.skip(1)) {
            Some(r) => Some((seq![s[0]] + r.0, r.1 + 1)),
            None => None,
        }
    }
}

/// The rest of a document after the library-path value: the field
/// separator, the presence key, its boolean, and the closing brace,
/// with insignificant whitespace allowed between the tokens.
pub open spec fn parse_bool_tail(s: Seq<u8>) -> Option<bool> {
    let s1 = skip_ws(s);
    if s1.len() > 0 && s1[0] == 44 {
        let s2 = skip_ws(s1.skip(1));
        if s2.len() >= 18 && s2.take(18) == pres_key() {
            let s3 = skip_ws(s2.skip(18));
            if s3.len() > 0 && s3[0] == 58 {
                let s4 = skip_ws(s3.skip(1));
                let parsed: Option<(bool, Seq<u8>)> = if s4.len() >= 4 && s4.take(4)
                    == json_true() {
                    Some((true, s4.skip(4)))
                } else if s4.len() >= 5 && s4.take(5) == json_false() {
                    Some((false, s4.skip(5)))
                } else {
                    None
                };
                match parsed {
                    Some(pb) => {
                        let s5 = skip_ws(pb.1);
                        if s5.len() == 1 && s5[0] == 125 {
                            Some(pb.0)
                        } else {
                            None
                        }
                    },
                    None => None,
                }
            } else {
                None
            }
        } else {
            None
        }
    } else {
        None
    }
}

/// The record a document holds: the shape that [`encode_spec`] writes,
/// with insignificant whitespace allowed between the tokens (the two
/// fields must come in this order, and only the escapes that
/// [`escaped_byte`] emits are read). `None` for any other document.
pub open spec fn parse_spec(s: Seq<u8>) -> Option<ConfigV> {
    if s.len() > 0 && s[0] == 123 {
        let s1 = skip_ws(s.skip(1));
        if s1.len() >= 14 && s1.take(14) == lib_key() {
            let s2 = skip_ws(s1.skip(14));
            if s2.len() > 0 && s2[0] == 58 {
                let s3 = skip_ws(s2.skip(1));
                let lib_parse: Option<(Option<Seq<u8>>, Seq<u8>)> = if s3.len() > 0 && s3[0]
                    == QUOTE {
                    match unescape_prefix(s3.skip(1)) {
                        Some(r) => Some((Some(r.0), s3.skip(1 + r.1))),
                        None => None,
                    }
                } else if s3.len() >= 4 && s3.take(4) == json_null() {
                    Some((Option::<Seq<u8>>::None, s3.skip(4)))
                } else {
                    None
                };
                match lib_parse {
                    Some(lp) => match parse_bool_tail(lp.1) {
                        Some(b) => Some(
                            ConfigV { library_path: lp.0, discord_presence: b },
                        ),
                        None => None,
                    },
                    None => None,
                }
            } else {
                None
            }
        } else {
            None
        }
    } else {
        None
    }
}

/// Escaping distributes over joining two byte strings.
proof fn lemma_escape_bytes_concat(a: Seq<u8>, b: Seq<u8>)
    ensures
        escape_bytes(a + b) == escape_bytes(a) + escape_bytes(b),
    decreases a.len(),
{
    if a.len() == 0 {
        assert(a + b =~= b);
        assert(escape_bytes(a) + escape_bytes(b) =~= escape_bytes(b));
    } else {
        lemma_escape_bytes_concat(a.skip(1), b);
        assert((a + b).skip(1) =~= a.skip(1) + b);
        assert((a + b)[0] == a[0]);
        assert(escape_bytes(a + b) =~= escape_bytes(a) + escape_bytes(b));
    }
}

/// Reading back an escaped byte string stops exactly at the closing
/// quote and recovers the bytes that were escaped, whatever follows
/// the quote.
proof fn lemma_unescape_escape(p: Seq<u8>, rest: Seq<u8>)
    ensures
        unescape_prefix(escape_bytes(p) + seq![QUOTE] + rest) == Some(
            (p, escape_bytes(p).len() as int + 1),
        ),
    decreases p.len(),
{
    let s = escape_bytes(p) + seq![QUOTE] + rest;
    if p.len() == 0 {
        assert(escape_bytes(p) =~= Seq::<u8>::empty());
        assert(s =~= seq![QUOTE] + rest);
        assert(s[0] == QUOTE);
        assert(p =~= Seq::<u8>::empty());
        assert(unescape_prefix(s) == Some((p, escape_bytes(p).len() as int + 1)));
    } else {
        let tail = escape_bytes(p.skip(1));
        assert(escape_bytes(p) == escaped_byte(p[0]) + tail);
        lemma_unescape_escape(p.skip(1), rest);
        let s1 = tail + seq![QUOTE] + rest;
        assert(seq![p[0]] + p.skip(1) =~= p);
        if p[0] == QUOTE || p[0] == BACKSLASH {
            assert(escaped_byte(p[0]) == seq![BACKSLASH, p[0]]);
            assert(s.len() >= 2);
            assert(s[0] == BACKSLASH);
            assert(s[1] == p[0]);
            assert(s.skip(2) =~= s1);
            assert(unescape_prefix(s) == Some((p, escape_bytes(p).len() as int + 1)));
        } else {
            assert(escaped_byte(p[0]) == seq![p[0]]);
            assert(s[0] == p[0]);
            assert(s[0] != QUOTE && s[0] != BACKSLASH);
            assert(s.skip(1) =~= s1);
            assert(unescape_prefix(s) == Some((p, escape_bytes(p).len() as int + 1)));
        }
    }
}

/// Skipping whitespace over a string that starts with none (or is
/// empty) changes nothing.
proof fn lemma_skip_ws_id(s: Seq<u8>)
    requires
        s.len() == 0 || !is_ws(s[0]),
    ensures
        skip_ws(s) == s,
{
}

/// The canonical tail that [`encode_spec`] writes after the value is
/// read back as its boolean.
proof fn lemma_bool_tail_round_trip(b: bool)
    ensures
        parse_bool_tail(
            json_mid() + (if b {
                json_true()
            } else {
                json_false()
            }) + seq![125u8],
        ) == Some(b),
{
    let bpart = if b {
        json_true()
    } else {
        json_false()
    };
    let s = json_mid() + bpart + seq![125u8];
    assert(json_mid() =~= seq![44u8] + pres_key() + seq![58u8]);
    assert(s[0] == 44 && !is_ws(s[0]));
    lemma_skip_ws_id(s);
    let s1 = s.skip(1);
    assert(s1 =~= pres_key() + seq![58u8] + bpart + seq![125u8]);
    assert(s1[0] == 34 && !is_ws(s1[0]));
    lemma_skip_ws_id(s1);
    assert(s1.take(18) =~= pres_key());
    let s2 = s1.skip(18);
    assert(s2 =~= seq![58u8] + bpart + seq![125u8]);
    assert(s2[0] == 58 && !is_ws(s2[0]));
    lemma_skip_ws_id(s2);
    let s3 = s2.skip(1);
    assert(s3 =~= bpart + seq![125u8]);
    assert(!is_ws(s3[0]));
    lemma_skip_ws_id(s3);
    if b {
        assert(s3.take(4) =~= json_true());
        let s4 = s3.skip(4);
        assert(s4 =~= seq![125u8]);
        lemma_skip_ws_id(s4);
        assert(s4.len() == 1 && s4[0] == 125);
    } else {
        assert(s3.take(4)[0] == 102);
        assert(json_true()[0] == 116);
        assert(s3.take(5) =~= json_false());
        let s4 = s3.skip(5);
        assert(s4 =~= seq![125u8]);
        lemma_skip_ws_id(s4);
        assert(s4.len() == 1 && s4[0] == 125);
    }
}

/// Saving a record and reloading it yields the record again: the
/// document that [`encode_spec`] writes is read back by [`parse_spec`]
/// as the same library path and the same presence flag.
pub proof fn lemma_config_round_trip(c: ConfigV)
    ensures
        parse_spec(encode_spec(c)) == Some(c),
{
    let s = encode_spec(c);
    let x = encode_path(c.library_path);
    let bpart = if c.discord_presence {
        json_true()
    } else {
        json_false()
    };
    let tail = json_mid() + bpart + seq![125u8];
    assert(json_prefix() =~= seq![123u8] + lib_key() + seq![58u8]);
    assert(s[0] == 123);
    let s1 = s.skip(1);
    assert(s1 =~= lib_key() + seq![58u8] + x + tail);
    assert(s1[0] == 34 && !is_ws(s1[0]));
    lemma_skip_ws_id(s1);
    assert(s1.take(14) =~= lib_key());
    let s2 = s1.skip(14);
    assert(s2 =~= seq![58u8] + x + tail);
    assert(s2[0] == 58 && !is_ws(s2[0]));
    lemma_skip_ws_id(s2);
    let s3 = s2.skip(1);
    assert(s3 =~= x + tail);
    match c.library_path {
        None => {
            assert(x == json_null());
            assert(s3[0] == 110 && !is_ws(s3[0]));
            lemma_skip_ws_id(s3);
            assert(s3[0] != QUOTE);
            assert(s3.take(4) =~= json_null());
            assert(s3.skip(4) =~= tail);
        },
        Some(p) => {
            assert(x == seq![QUOTE] + escape_bytes(p) + seq![QUOTE]);
            assert(s3[0] == QUOTE && !is_ws(s3[0]));
            lemma_skip_ws_id(s3);
            assert(s3.skip(1) =~= escape_bytes(p) + seq![QUOTE] + tail);
            lemma_unescape_escape(p, tail);
            assert(s3.skip(1 + (escape_bytes(p).len() as int + 1)) =~= tail);
        },
    }
    lemma_bool_tail_round_trip(c.discord_presence);
}

/// The bytes of [`json_prefix`], for the encoder and the parser.
fn json_prefix_bytes() -> (r: Vec<u8>)
    ensures
        r@ == json_prefix(),
{
    let mut v: Vec<u8> = Vec::new();
    v.push(123);
    v.push(34);
    v.push(108);
    v.push(105);
    v.push(98);
    v.push(114);
    v.push(97);
    v.push(114);
    v.push(121);
    v.push(95);
    v.push(112);
    v.push(97);
    v.push(116);
    v.push(104);
    v.push(34);
    v.push(58);
    proof {
        assert(v@ =~= json_prefix());
    }
    v
}

/// The bytes of [`json_mid`].
fn json_mid_bytes() -> (r: Vec<u8>)
    ensures
        r@ == json_mid(),
{
    let mut v: Vec<u8> = Vec::new();
    v.push(44);
    v.push(34);
    v.push(100);
    v.push(105);
    v.push(115);
    v.push(99);
    v.push(111);
    v.push(114);
    v.push(100);
    v.push(95);
    v.push(112);
    v.push(114);
    v.push(101);
    v.push(115);
    v.push(101);
    v.push(110);
    v.push(99);
    v.push(101);
    v.push(34);
    v.push(58);
    proof {
        assert(v@ =~= json_mid());
    }
    v
}

/// The bytes of [`json_null`].
fn json_null_bytes() -> (r: Vec<u8>)
    ensures
        r@ == json_null(),
{
    let mut v: Vec<u8> = Vec::new();
    v.push(110);
    v.push(117);
    v.push(108);
    v.push(108);
    proof {
        assert(v@ =~= json_null());
    }
    v
}

/// The bytes of [`json_true`].
fn json_true_bytes() -> (r: Vec<u8>)
    ensures
        r@ == json_true(),
{
    let mut v: Vec<u8> = Vec::new();
    v.push(116);
    v.push(114);
    v.push(117);
    v.push(101);
    proof {
        assert(v@ =~= json_true());
    }
    v
}

/// The bytes of [`json_false`].
fn json_false_bytes() -> (r: Vec<u8>)
    ensures
        r@ == json_false(),
{
    let mut v: Vec<u8> = Vec::new();
    v.push(102);
    v.push(97);
    v.push(108);
    v.push(115);
    v.push(101);
    proof {
        assert(v@ =~= json_false());
    }
    v
}

/// The bytes of [`lib_key`].
fn lib_key_bytes() -> (r: Vec<u8>)
    ensures
        r@ == lib_key(),
{
    let mut v: Vec<u8> = Vec::new();
    v.push(34);
    v.push(108);
    v.push(105);
    v.push(98);
    v.push(114);
    v.push(97);
    v.push(114);
    v.push(121);
    v.push(95);
    v.push(112);
    v.push(97);
    v.push(116);
    v.push(104);
    v.push(34);
    proof {
        assert(v@ =~= lib_key());
    }
    v
}

/// The bytes of [`pres_key`].
fn pres_key_bytes() -> (r: Vec<u8>)
    ensures
        r@ == pres_key(),
{
    let mut v: Vec<u8> = Vec::new();
    v.push(34);
    v.push(100);
    v.push(105);
    v.push(115);
    v.push(99);
    v.push(111);
    v.push(114);
    v.push(100);
    v.push(95);
    v.push(112);
    v.push(114);
    v.push(101);
    v.push(115);
    v.push(101);
    v.push(110);
    v.push(99);
    v.push(101);
    v.push(34);
    proof {
        assert(v@ =~= pres_key());
    }
    v
}

/// Whether `pat` stands in `input` at position `pos`.
fn match_pattern(input: &Vec<u8>, pos: usize, pat: &Vec<u8>) -> (r: bool)
    ensures
        r == (pos + pat@.len() <= input@.len() && input@.subrange(
            pos as int,
            pos as int + pat@.len() as int,
        ) == pat@),
{
    let n: usize = input.len();
    let m: usize = pat.len();
    if pos > n || m > n - pos {
        return false;
    }
    let mut i: usize = 0;
    while i < m
        invariant
            pos + m <= n,
            n == input@.len(),
            m == pat@.len(),
            i <= m,
            forall|k: int| 0 <= k < i ==> input@[pos + k] == pat@[k],
        decreases m - i,
    {
        if input[pos + i] != pat[i] {
            proof {
                let sub = input@.subrange(pos as int, pos as int + m as int);
                assert(sub[i as int] == input@[pos + i]);
            }
            return false;
        }
        i += 1;
    }
    proof {
        assert(input@.subrange(pos as int, pos as int + m as int) =~= pat@);
    }
    true
}

/// Read a quoted string's contents out of `input`, starting at `start`
/// (just after the opening quote), as [`unescape_prefix`] describes:
/// the contents and the position right after the closing quote.
fn unescape_from(input: &Vec<u8>, start: usize) -> (r: Option<(Vec<u8>, usize)>)
    requires
        start <= input@.len(),
    ensures
        match unescape_prefix(input@.skip(start as int)) {
            Some(pr) => (r matches Some(p) && p.0@ == pr.0 && p.1 == start + pr.1
                && start < p.1 <= input@.len()),
            None => r is None,
        },
{
    let n: usize = input.len();
    let mut acc: Vec<u8> = Vec::new();
    let mut pos: usize = start;
    proof {
        match unescape_prefix(input@.skip(start as int)) {
            Some(pr) => {
                assert(acc@ + pr.0 =~= pr.0);
            },
            None => {},
        }
    }
    loop
        invariant
            start <= pos <= n,
            n == input@.len(),
            match unescape_prefix(input@.skip(pos as int)) {
                Some(pr) => (unescape_prefix(input@.skip(start as int)) matches Some(w)
                    && w.0 == acc@ + pr.0 && w.1 == (pos - start) + pr.1),
                None => unescape_prefix(input@.skip(start as int)) is None,
            },
        decreases n - pos,
    {
        if pos == n {
            proof {
                assert(input@.skip(pos as int).len() == 0);
            }
            return None;
        }
        let b = input[pos];
        if b == QUOTE {
            proof {
                let s = input@.skip(pos as int);
                assert(s[0] == QUOTE);
                assert(unescape_prefix(s) == Some((Seq::<u8>::empty(), 1int)));
                assert(acc@ + Seq::<u8>::empty() =~= acc@);
            }
            return Some((acc, pos + 1));
        } else if b == BACKSLASH {
            if n - pos < 2 {
                proof {
                    let s = input@.skip(pos as int);
                    assert(s[0] == BACKSLASH && s.len() < 2);
                    assert(unescape_prefix(s) is None);
                }
                return None;
            }
            let c = input[pos + 1];
            let ghost acc0 = acc@;
            acc.push(c);
            proof {
                let s = input@.skip(pos as int);
                assert(s[0] == BACKSLASH && s.len() >= 2);
                assert(s[1] == c);
                assert(s.skip(2) =~= input@.skip(pos as int + 2));
                match unescape_prefix(input@.skip(pos as int + 2)) {
                    Some(r2) => {
                        assert(unescape_prefix(s) == Some((seq![c] + r2.0, r2.1 + 2)));
                        assert(acc0 + (seq![c] + r2.0) =~= acc@ + r2.0);
                    },
                    None => {
                        assert(unescape_prefix(s) is None);
                    },
                }
            }
            pos = pos + 2;
        } else {
            let ghost acc0 = acc@;
            acc.push(b);
            proof {
                let s = input@.skip(pos as int);
                assert(s[0] == b && b != QUOTE && b != BACKSLASH);
                assert(s.skip(1) =~= input@.skip(pos as int + 1));
                match unescape_prefix(input@.skip(pos as int + 1)) {
                    Some(r2) => {
                        assert(unescape_prefix(s) == Some((seq![b] + r2.0, r2.1 + 1)));
                        assert(acc0 + (seq![b] + r2.0) =~= acc@ + r2.0);
                    },
                    None => {
                        assert(unescape_prefix(s) is None);
                    },
                }
            }
            pos = pos + 1;
        }
    }
}

/// Write the document for `c`, exactly as [`encode_spec`] gives it.
pub fn encode_config(c: &Config) -> (r: Vec<u8>)
    ensures
        r@ == encode_spec(c@),
{
    let mut out = json_prefix_bytes();
    match &c.library_path {
        None => {
            let mut word = json_null_bytes();
            out.append(&mut word);
        },
        Some(p) => {
            out.push(QUOTE);
            let ghost mark = out@;
            let m: usize = p.len();
            let mut i: usize = 0;
            while i < m
                invariant
                    m == p@.len(),
                    i <= m,
                    out@ == mark + escape_bytes(p@.take(i as int)),
                decreases m - i,
            {
                let b = p[i];
                let ghost out0 = out@;
                if b == QUOTE || b == BACKSLASH {
                    out.push(BACKSLASH);
                    out.push(b);
                } else {
                    out.push(b);
                }
                proof {
                    let x = p@[i as int];
                    assert(out@ =~= out0 + escaped_byte(x));
                    assert(p@.take(i as int + 1) =~= p@.take(i as int) + seq![x]);
                    lemma_escape_bytes_concat(p@.take(i as int), seq![x]);
                    assert(seq![x].skip(1) =~= Seq::<u8>::empty());
                    assert(escape_bytes(Seq::<u8>::empty()) == Seq::<u8>::empty());
                    assert(escape_bytes(seq![x]) == escaped_byte(x) + escape_bytes(
                        Seq::<u8>::empty(),
                    ));
                    assert(escape_bytes(seq![x]) =~= escaped_byte(x));
                    assert(out@ =~= mark + escape_bytes(p@.take(i as int + 1)));
                }
                i += 1;
            }
            proof {
                assert(p@.take(m as int) =~= p@);
            }
            out.push(QUOTE);
        },
    }
    proof {
        assert(out@ =~= json_prefix() + encode_path(c@.library_path));
    }
    let ghost front = out@;
    let mut word = json_mid_bytes();
    out.append(&mut word);
    if c.discord_presence {
        let mut tail = json_true_bytes();
        out.append(&mut tail);
    } else {
        let mut tail = json_false_bytes();
        out.append(&mut tail);
    }
    out.push(125);
    proof {
        assert(out@ =~= encode_spec(c@));
    }
    out
}

/// Advance `pos` past insignificant whitespace.
fn skip_ws_from(input: &Vec<u8>, pos: usize) -> (r: usize)
    requires
        pos <= input@.len(),
    ensures
        pos <= r <= input@.len(),
        input@.skip(r as int) == skip_ws(input@.skip(pos as int)),
{
    let n: usize = input.len();
    let mut cur: usize = pos;
    while cur < n && (input[cur] == 32 || input[cur] == 9 || input[cur] == 10 || input[cur] == 13)
        invariant
            pos <= cur <= n,
            n == input@.len(),
            skip_ws(input@.skip(pos as int)) == skip_ws(input@.skip(cur as int)),
        decreases n - cur,
    {
        proof {
            let s = input@.skip(cur as int);
            assert(s[0] == input@[cur as int] && is_ws(s[0]));
            assert(s.skip(1) =~= input@.skip(cur as int + 1));
        }
        cur = cur + 1;
    }
    proof {
        let s = input@.skip(cur as int);
        if cur < n {
            assert(s[0] == input@[cur as int]);
            assert(!is_ws(s[0]));
        } else {
            assert(s.len() == 0);
        }
        assert(skip_ws(s) == s);
    }
    cur
}

/// Read the document's tail from `pos` on, exactly as
/// [`parse_bool_tail`] reads the corresponding suffix.
fn parse_bool_tail_from(input: &Vec<u8>, pos: usize) -> (r: Option<bool>)
    requires
        pos <= input@.len(),
    ensures
        r == parse_bool_tail(input@.skip(pos as int)),
{
    let n: usize = input.len();
    let p1: usize = skip_ws_from(input, pos);
    if !(p1 < n && input[p1] == 44) {
        return None;
    }
    proof {
        assert(input@.skip(p1 as int)[0] == 44);
        assert(input@.skip(p1 as int).skip(1) =~= input@.skip(p1 as int + 1));
    }
    let key = pres_key_bytes();
    let p2: usize = skip_ws_from(input, p1 + 1);
    if !match_pattern(input, p2, &key) {
        proof {
            let s2 = input@.skip(p2 as int);
            if s2.len() >= 18 {
                assert(s2.take(18) =~= input@.subrange(p2 as int, p2 as int + 18));
            }
        }
        return None;
    }
    proof {
        let s2 = input@.skip(p2 as int);
        assert(s2.take(18) =~= input@.subrange(p2 as int, p2 as int + 18));
        assert(s2.skip(18) =~= input@.skip(p2 as int + 18));
    }
    let p3: usize = skip_ws_from(input, p2 + 18);
    if !(p3 < n && input[p3] == 58) {
        return None;
    }
    proof {
        assert(input@.skip(p3 as int)[0] == 58);
        assert(input@.skip(p3 as int).skip(1) =~= input@.skip(p3 as int + 1));
    }
    let p4: usize = skip_ws_from(input, p3 + 1);
    let tru = json_true_bytes();
    let t_ok = match_pattern(input, p4, &tru);
    proof {
        let s4 = input@.skip(p4 as int);
        if s4.len() >= 4 {
            assert(s4.take(4) =~= input@.subrange(p4 as int, p4 as int + 4));
        }
    }
    let b: bool;
    let after: usize;
    if t_ok {
        b = true;
        after = p4 + 4;
        proof {
            assert(input@.skip(p4 as int).skip(4) =~= input@.skip(p4 as int + 4));
        }
    } else {
        let fal = json_false_bytes();
        let f_ok = match_pattern(input, p4, &fal);
        proof {
            let s4 = input@.skip(p4 as int);
            if s4.len() >= 5 {
                assert(s4.take(5) =~= input@.subrange(p4 as int, p4 as int + 5));
            }
        }
        if f_ok {
            b = false;
            after = p4 + 5;
            proof {
                assert(input@.skip(p4 as int).skip(5) =~= input@.skip(p4 as int + 5));
            }
        } else {
            return None;
        }
    }
    let p5: usize = skip_ws_from(input, after);
    if n - p5 == 1 && input[p5] == 125 {
        proof {
            assert(input@.skip(p5 as int).len() == 1);
            assert(input@.skip(p5 as int)[0] == 125);
        }
        Some(b)
    } else {
        proof {
            let s5 = input@.skip(p5 as int);
            assert(s5.len() == n - p5);
            if p5 < n {
                assert(s5[0] == input@[p5 as int]);
            }
        }
        None
    }
}

/// Read a document back into a record, accepting exactly what
/// [`parse_spec`] accepts.
pub fn parse_config(input: &Vec<u8>) -> (r: Option<Config>)
    ensures
        match parse_spec(input@) {
            Some(cv) => (r matches Some(c) && c@ == cv),
            None => r is None,
        },
{
    let n: usize = input.len();
    if !(0 < n && input[0] == 123) {
        return None;
    }
    proof {
        assert(input@[0] == 123);
        assert(input@.skip(0).skip(1) =~= input@.skip(1));
    }
    let key = lib_key_bytes();
    let p1: usize = skip_ws_from(input, 1);
    if !match_pattern(input, p1, &key) {
        proof {
            let s1 = input@.skip(p1 as int);
            if s1.len() >= 14 {
                assert(s1.take(14) =~= input@.subrange(p1 as int, p1 as int + 14));
            }
        }
        return None;
    }
    proof {
        let s1 = input@.skip(p1 as int);
        assert(s1.take(14) =~= input@.subrange(p1 as int, p1 as int + 14));
        assert(s1.skip(14) =~= input@.skip(p1 as int + 14));
    }
    let p2: usize = skip_ws_from(input, p1 + 14);
    if !(p2 < n && input[p2] == 58) {
        return None;
    }
    proof {
        assert(input@.skip(p2 as int)[0] == 58);
        assert(input@.skip(p2 as int).skip(1) =~= input@.skip(p2 as int + 1));
    }
    let p3: usize = skip_ws_from(input, p2 + 1);
    let lib: Option<Vec<u8>>;
    let after_val: usize;
    if p3 < n && input[p3] == QUOTE {
        proof {
            assert(input@.skip(p3 as int)[0] == QUOTE);
            assert(input@.skip(p3 as int).skip(1) =~= input@.skip(p3 as int + 1));
        }
        match unescape_from(input, p3 + 1) {
            Some(pe) => {
                proof {
                    match unescape_prefix(input@.skip(p3 as int + 1)) {
                        Some(pr) => {
                            assert(input@.skip(p3 as int).skip(1 + pr.1) =~= input@.skip(
                                p3 as int + 1 + pr.1,
                            ));
                        },
                        None => {},
                    }
                }
                lib = Some(pe.0);
                after_val = pe.1;
            },
            None => {
                return None;
            },
        }
    } else {
        let word = json_null_bytes();
        if match_pattern(input, p3, &word) {
            proof {
                let s3 = input@.skip(p3 as int);
                assert(s3.take(4) =~= input@.subrange(p3 as int, p3 as int + 4));
                assert(s3.skip(4) =~= input@.skip(p3 as int + 4));
            }
            lib = None;
            after_val = p3 + 4;
        } else {
            proof {
                let s3 = input@.skip(p3 as int);
                if s3.len() >= 4 {
                    assert(s3.take(4) =~= input@.subrange(p3 as int, p3 as int + 4));
                }
            }
            return None;
        }
    }
    match parse_bool_tail_from(input, after_val) {
        Some(b) => Some(Config { library_path: lib, discord_presence: b }),
        None => None,
    }
}

} // verus!

