//! Display specifiers: parsing a string of the grammar
//! `(protocol "/")? (host ("::" | ":"))? display ("." screen)?` into a
//! structured address, and rendering such an address back to its canonical
//! string form.

use vstd::prelude::*;
use crate::chars::chars_eq;
use crate::chars::char_index_first;
use crate::chars::char_index_last_from;
use crate::chars::first_ix;
use crate::chars::last_ix;
use crate::numerals::dec_digits;
use crate::numerals::dec_signed;
use crate::numerals::is_digit;
use crate::numerals::parse_i16_spec;
use crate::numerals::parse_i16;
use crate::numerals::render_i16;

verus! {

/// The protocol named before the `/` of a display specifier.
#[derive(Clone, Copy, Debug, PartialEq, Eq, Structural)]
pub enum Protocol {
    /// A connection over DECnet: recognized but unsupported.
    DecNet,
    /// A connection over TCP.
    Tcp,
    /// A connection over TCP using IPv4.
    Inet,
    /// A connection over TCP using IPv6.
    Inet6,
    /// A connection over unix domain sockets.
    Unix,
}

/// The host part of a display specifier, distinguished at parse time by its
/// surrounding syntax: a trailing double colon marks DECnet, brackets an
/// IPv6 literal, the literal text `unix` the domain-socket marker, anything
/// else a plain host name.
#[derive(Clone, Debug, PartialEq, Eq)]
pub enum Hostname {
    DecNet(String),
    Inet6(String),
    Unix,
    Other(String),
}

/// The mathematical model of a [`Hostname`]: the same variants over
/// character sequences.
pub enum HostnameModel {
    DecNet(Seq<char>),
    Inet6(Seq<char>),
    Unix,
    Other(Seq<char>),
}

impl View for Hostname {
    type V = HostnameModel;

    open spec fn view(&self) -> HostnameModel {
        match self {
            Hostname::DecNet(h) => HostnameModel::DecNet(h@),
            Hostname::Inet6(h) => HostnameModel::Inet6(h@),
            Hostname::Unix => HostnameModel::Unix,
            Hostname::Other(h) => HostnameModel::Other(h@),
        }
    }
}

/// A parsed display specifier: optional protocol, optional host, mandatory
/// display number, optional screen number.
#[derive(Clone, Debug, PartialEq, Eq)]
pub struct DisplayName {
    pub protocol: Option<Protocol>,
    pub hostname: Option<Hostname>,
    pub display: i16,
    pub screen: Option<i16>,
}

/// The mathematical model of a [`DisplayName`].
pub struct DisplayNameModel {
    pub protocol: Option<Protocol>,
    pub hostname: Option<HostnameModel>,
    pub display: i16,
    pub screen: Option<i16>,
}

impl View for DisplayName {
    type V = DisplayNameModel;

    open spec fn view(&self) -> DisplayNameModel {
        DisplayNameModel {
            protocol: self.protocol,
            hostname: match &self.hostname {
                Some(h) => Some(h.view()),
                None => None,
            },
            display: self.display,
            screen: self.screen,
        }
    }
}

/// Which display server to connect to: the platform default (the resolved
/// value of the `DISPLAY` environment variable, looked up by the caller) or
/// a specific parsed address.
#[derive(Clone, Debug, PartialEq, Eq)]
pub enum Display {
    Default,
    Specific(DisplayName),
}

/// Why a display specifier was rejected.
#[derive(Clone, Copy, Debug, PartialEq, Eq, Structural)]
pub enum DisplayNameParseError {
    /// A structural inconsistency, such as an unparsable number.
    IllFormatted,
    /// A protocol field that matches no recognized token.
    UnrecognizedProtocol,
}

/// The protocol a token before the `/` denotes, if any.
pub open spec fn spec_protocol(p: Seq<char>) -> Option<Protocol> {
    if p == seq!['t', 'c', 'p'] {
        Some(Protocol::Tcp)
    } else if p == seq!['i', 'n', 'e', 't'] {
        Some(Protocol::Inet)
    } else if p == seq!['i', 'n', 'e', 't', '6'] {
        Some(Protocol::Inet6)
    } else if p == seq!['u', 'n', 'i', 'x'] {
        Some(Protocol::Unix)
    } else {
        None
    }
}

impl Protocol {
    /// The canonical token of this protocol, the one the parser recognizes;
    /// DECnet has none.
    pub fn token(&self) -> (r: Option<&'static str>)
        ensures
            match r {
                Some(t) => spec_protocol(t@) == Some(*self),
                None => *self == Protocol::DecNet,
            },
    {
        proof {
            reveal_strlit("tcp");
            reveal_strlit("inet");
            reveal_strlit("inet6");
            reveal_strlit("unix");
            assert("tcp"@ =~= seq!['t', 'c', 'p']);
            assert("inet"@ =~= seq!['i', 'n', 'e', 't']);
            assert("inet6"@ =~= seq!['i', 'n', 'e', 't', '6']);
            assert("unix"@ =~= seq!['u', 'n', 'i', 'x']);
        }
        match self {
            Protocol::DecNet => None,
            Protocol::Tcp => Some("tcp"),
            Protocol::Inet => Some("inet"),
            Protocol::Inet6 => Some("inet6"),
            Protocol::Unix => Some("unix"),
        }
    }
}

/// The classification of a non-empty host field: a trailing colon marks
/// DECnet syntax (the host text loses that colon), surrounding brackets an
/// IPv6 literal (the host text loses them), the text `unix` the
/// domain-socket marker, anything else a plain host name.
pub open spec fn spec_hostname(h: Seq<char>) -> HostnameModel
    recommends
        h.len() > 0,
{
    if h[h.len() - 1] == ':' {
        HostnameModel::DecNet(h.take(h.len() - 1))
    } else if h.len() >= 2 && h[0] == '[' && h[h.len() - 1] == ']' {
        HostnameModel::Inet6(h.subrange(1, h.len() - 1))
    } else if h == seq!['u', 'n', 'i', 'x'] {
        HostnameModel::Unix
    } else {
        HostnameModel::Other(h)
    }
}

/// What parsing a display specifier yields, by right-to-left segmentation:
/// everything before the first `/` is the protocol; of the remainder,
/// everything before the last `:` is the host (empty means none);
/// of what is left, everything after the last `.` is the screen number and
/// the rest is the mandatory display number.
pub open spec fn spec_parse(s: Seq<char>) -> Result<DisplayNameModel, DisplayNameParseError> {
    let slash = first_ix(s, '/');
    let rest1 = if slash >= 0 {
        s.skip(slash + 1)
    } else {
        s
    };
    let colon = last_ix(rest1, ':');
    let rest2 = if colon >= 0 {
        rest1.skip(colon + 1)
    } else {
        rest1
    };
    let dot = last_ix(rest2, '.');
    let disp_txt = if dot >= 0 {
        rest2.take(dot)
    } else {
        rest2
    };
    if dot >= 0 && parse_i16_spec(rest2.skip(dot + 1)) is None {
        Err(DisplayNameParseError::IllFormatted)
    } else if slash >= 0 && spec_protocol(s.take(slash)) is None {
        Err(DisplayNameParseError::UnrecognizedProtocol)
    } else if parse_i16_spec(disp_txt) is None {
        Err(DisplayNameParseError::IllFormatted)
    } else {
        Ok(
            DisplayNameModel {
                protocol: if slash >= 0 {
                    spec_protocol(s.take(slash))
                } else {
                    None
                },
                hostname: if colon >= 1 {
                    Some(spec_hostname(rest1.take(colon)))
                } else {
                    None
                },
                display: parse_i16_spec(disp_txt)->Some_0,
                screen: if dot >= 0 {
                    parse_i16_spec(rest2.skip(dot + 1))
                } else {
                    None
                },
            },
        )
    }
}

/// Matches a protocol field against the recognized tokens.
fn classify_protocol(p: &str) -> (r: Option<Protocol>)
    ensures
        r == spec_protocol(p@),
{
    proof {
        reveal_strlit("tcp");
        reveal_strlit("inet");
        reveal_strlit("inet6");
        reveal_strlit("unix");
        assert("tcp"@ =~= seq!['t', 'c', 'p']);
        assert("inet"@ =~= seq!['i', 'n', 'e', 't']);
        assert("inet6"@ =~= seq!['i', 'n', 'e', 't', '6']);
        assert("unix"@ =~= seq!['u', 'n', 'i', 'x']);
    }
    if chars_eq(p, "tcp") {
        Some(Protocol::Tcp)
    } else if chars_eq(p, "inet") {
        Some(Protocol::Inet)
    } else if chars_eq(p, "inet6") {
        Some(Protocol::Inet6)
    } else if chars_eq(p, "unix") {
        Some(Protocol::Unix)
    } else {
        None
    }
}

/// Classifies a non-empty host field by its surrounding syntax.
fn classify_host(h: &str) -> (r: Hostname)
    requires
        h@.len() > 0,
    ensures
        r@ == spec_hostname(h@),
{
    proof {
        reveal_strlit("unix");
        assert("unix"@ =~= seq!['u', 'n', 'i', 'x']);
    }
    let hlen = h.unicode_len();
    if h.get_char(hlen - 1) == ':' {
        let inner = h.substring_char(0, hlen - 1);
        Hostname::DecNet(inner.to_owned())
    } else if hlen >= 2 && h.get_char(0) == '[' && h.get_char(hlen - 1) == ']' {
        let inner = h.substring_char(1, hlen - 1);
        Hostname::Inet6(inner.to_owned())
    } else if chars_eq(h, "unix") {
        Hostname::Unix
    } else {
        Hostname::Other(h.to_owned())
    }
}

impl DisplayName {
    /// A display name with only the mandatory display number set.
    pub fn new(display: i16) -> (r: Self)
        ensures
            r.protocol is None,
            r.hostname is None,
            r.display == display,
            r.screen is None,
    {
        Self { protocol: None, hostname: None, display, screen: None }
    }

    /// Sets the protocol field.
    pub fn protocol(&mut self, protocol: Protocol)
        ensures
            *final(self) == (DisplayName { protocol: Some(protocol), ..*old(self) }),
    {
        self.protocol = Some(protocol);
    }

    /// Sets the host field.
    pub fn hostname(&mut self, hostname: Hostname)
        ensures
            *final(self) == (DisplayName { hostname: Some(hostname), ..*old(self) }),
    {
        self.hostname = Some(hostname);
    }

    /// Sets the screen field.
    pub fn screen(&mut self, screen: i16)
        ensures
            *final(self) == (DisplayName { screen: Some(screen), ..*old(self) }),
    {
        self.screen = Some(screen);
    }

    /// Parses a display specifier: exactly the strings [`spec_parse`]
    /// accepts, with exactly its fields; pure and total over valid UTF-8
    /// input, never retried.
    #[verifier::rlimit(100)]
    pub fn parse(name: &str) -> (r: Result<DisplayName, DisplayNameParseError>)
        ensures
            match r {
                Ok(d) => spec_parse(name@) == Ok::<DisplayNameModel, DisplayNameParseError>(d@),
                Err(e) => spec_parse(name@) == Err::<DisplayNameModel, DisplayNameParseError>(e),
            },
    {
        let n = name.unicode_len();
        let ghost s = name@;

        let slash_opt = char_index_first(name, '/');
        let body_start: usize = match slash_opt {
            Some(i) => i + 1,
            None => 0,
        };
        let ghost slash = first_ix(s, '/');
        let ghost rest1 = if slash >= 0 {
            s.skip(slash + 1)
        } else {
            s
        };
        proof {
            crate::chars::lemma_first_ix(s, '/');
            assert(rest1 =~= s.skip(body_start as int));
        }

        let colon_opt = char_index_last_from(name, body_start, ':');
        let disp_start: usize = match colon_opt {
            Some(j) => j + 1,
            None => body_start,
        };
        let ghost colon = last_ix(rest1, ':');
        let ghost rest2 = if colon >= 0 {
            rest1.skip(colon + 1)
        } else {
            rest1
        };
        proof {
            crate::chars::lemma_last_ix(rest1, ':');
            assert(rest2 =~= s.skip(disp_start as int));
        }

        let dot_opt = char_index_last_from(name, disp_start, '.');
        let ghost dot = last_ix(rest2, '.');

        // Screen number, if a dot was found.
        let screen: Option<i16> = match dot_opt {
            Some(k) => {
                let txt = name.substring_char(k + 1, n);
                proof {
                    assert(txt@ =~= rest2.skip(dot + 1));
                }
                match parse_i16(txt) {
                    Some(v) => Some(v),
                    None => {
                        return Err(DisplayNameParseError::IllFormatted);
                    },
                }
            },
            None => None,
        };

        // Protocol, if a slash was found.
        let protocol: Option<Protocol> = match slash_opt {
            Some(i) => {
                let p = name.substring_char(0, i);
                proof {
                    assert(p@ =~= s.take(slash));
                }
                match classify_protocol(p) {
                    Some(pr) => Some(pr),
                    None => {
                        return Err(DisplayNameParseError::UnrecognizedProtocol);
                    },
                }
            },
            None => None,
        };

        // The mandatory display number.
        let disp_end: usize = match dot_opt {
            Some(k) => k,
            None => n,
        };
        let dtxt = name.substring_char(disp_start, disp_end);
        proof {
            assert(dtxt@ =~= (if dot >= 0 {
                rest2.take(dot)
            } else {
                rest2
            }));
        }
        let display: i16 = match parse_i16(dtxt) {
            Some(v) => v,
            None => {
                return Err(DisplayNameParseError::IllFormatted);
            },
        };

        // Host field, if a colon was found and the text before it is
        // non-empty.
        let hostname: Option<Hostname> = match colon_opt {
            Some(j) => {
                if j > body_start {
                    let h = name.substring_char(body_start, j);
                    proof {
                        assert(h@ =~= rest1.take(colon));
                    }
                    Some(classify_host(h))
                } else {
                    None
                }
            },
            None => None,
        };

        let result = DisplayName { protocol, hostname, display, screen };
        Ok(result)
    }
}

/// The canonical text of the protocol field: the token and its slash, or
/// nothing when no protocol (or the tokenless DECnet protocol) is set.
pub open spec fn spec_render_protocol(p: Option<Protocol>) -> Seq<char> {
    match p {
        Some(Protocol::Tcp) => seq!['t', 'c', 'p', '/'],
        Some(Protocol::Inet) => seq!['i', 'n', 'e', 't', '/'],
        Some(Protocol::Inet6) => seq!['i', 'n', 'e', 't', '6', '/'],
        Some(Protocol::Unix) => seq!['u', 'n', 'i', 'x', '/'],
        Some(Protocol::DecNet) => Seq::empty(),
        None => Seq::empty(),
    }
}

/// The canonical text of the host field and its separator: DECnet syntax
/// takes a double colon, every other host a single one.
pub open spec fn spec_render_hostname(h: Option<HostnameModel>) -> Seq<char> {
    match h {
        Some(HostnameModel::DecNet(t)) => t + seq![':', ':'],
        Some(HostnameModel::Inet6(t)) => seq!['['] + t + seq![']', ':'],
        Some(HostnameModel::Unix) => seq!['u', 'n', 'i', 'x', ':'],
        Some(HostnameModel::Other(t)) => t + seq![':'],
        None => Seq::empty(),
    }
}

/// The canonical string form of a display name.
pub open spec fn spec_render(m: DisplayNameModel) -> Seq<char> {
    spec_render_protocol(m.protocol) + spec_render_hostname(m.hostname) + dec_signed(
        m.display as int,
    ) + (match m.screen {
        Some(v) => seq!['.'] + dec_signed(v as int),
        None => Seq::<char>::empty(),
    })
}

impl DisplayName {
    /// Renders this display name to its canonical string form,
    /// [`spec_render`].
    pub fn render(&self) -> (r: String)
        ensures
            r@ == spec_render(self@),
    {
        proof {
            reveal_strlit("tcp/");
            reveal_strlit("inet/");
            reveal_strlit("inet6/");
            reveal_strlit("unix/");
            reveal_strlit("::");
            reveal_strlit("[");
            reveal_strlit("]:");
            reveal_strlit("unix:");
            reveal_strlit(":");
            reveal_strlit(".");
        }
        let mut out = String::new();
        match &self.protocol {
            Some(Protocol::Tcp) => out.append("tcp/"),
            Some(Protocol::Inet) => out.append("inet/"),
            Some(Protocol::Inet6) => out.append("inet6/"),
            Some(Protocol::Unix) => out.append("unix/"),
            Some(Protocol::DecNet) => {},
            None => {},
        }
        proof {
            assert(out@ =~= spec_render_protocol(self.protocol));
        }
        match &self.hostname {
            Some(Hostname::DecNet(h)) => {
                out.append(h.as_str());
                out.append("::");
            },
            Some(Hostname::Inet6(h)) => {
                out.append("[");
                out.append(h.as_str());
                out.append("]:");
            },
            Some(Hostname::Unix) => {
                out.append("unix:");
            },
            Some(Hostname::Other(h)) => {
                out.append(h.as_str());
                out.append(":");
            },
            None => {},
        }
        proof {
            assert(out@ =~= spec_render_protocol(self@.protocol) + spec_render_hostname(
                self@.hostname,
            ));
        }
        let d = render_i16(self.display);
        out.append(d.as_str());
        match &self.screen {
            Some(v) => {
                out.append(".");
                let sc = render_i16(*v);
                out.append(sc.as_str());
            },
            None => {},
        }
        proof {
            assert(out@ =~= spec_render(self@));
        }
        out
    }
}

/// Whether `c` never occurs in `s`.
pub open spec fn no_char(s: Seq<char>, c: char) -> bool {
    forall|i: int| 0 <= i < s.len() ==> s[i] != c
}

/// A display name whose canonical rendering parses back to itself: the
/// protocol, if set, has a canonical token (DECnet has none); a plain host
/// name is non-empty, does not end with a colon, is not the literal `unix`
/// and does not look bracketed; and when no protocol is set, no host text
/// contains a slash (the first slash would otherwise be read as a protocol
/// separator). Every address the parser accepts satisfies this:
/// [`lemma_parse_result_renderable`].
pub open spec fn renderable(m: DisplayNameModel) -> bool {
    &&& (m.protocol matches Some(p) ==> p != Protocol::DecNet)
    &&& match m.hostname {
        None => true,
        Some(HostnameModel::DecNet(h)) => m.protocol is None ==> no_char(h, '/'),
        Some(HostnameModel::Inet6(h)) => m.protocol is None ==> no_char(h, '/'),
        Some(HostnameModel::Unix) => true,
        Some(HostnameModel::Other(h)) => h.len() > 0 && h[h.len() - 1] != ':' && h != seq!['u', 'n', 'i', 'x']
            && !(h.len() >= 2 && h[0] == '[' && h[h.len() - 1] == ']') && (m.protocol is None
            ==> no_char(h, '/')),
    }
}

proof fn lemma_dec_signed_sep_free(v: int)
    requires
        -32768 <= v <= 32767,
    ensures
        no_char(dec_signed(v), '/'),
        no_char(dec_signed(v), ':'),
        no_char(dec_signed(v), '.'),
{
    let mag = if v < 0 {
        -v
    } else {
        v
    };
    crate::numerals::lemma_dec_digits_val(mag);
    let s = dec_signed(v);
    assert forall|i: int| 0 <= i < s.len() implies s[i] != '/' && s[i] != ':' && s[i] != '.' by {
        if v < 0 {
            if i == 0 {
                assert(s[0] == '-');
            } else {
                assert(s[i] == dec_digits(mag)[i - 1]);
                assert(is_digit(dec_digits(mag)[i - 1]));
            }
        } else {
            assert(s[i] == dec_digits(mag)[i]);
            assert(is_digit(dec_digits(mag)[i]));
        }
    }
}

proof fn lemma_protocol_token(p: Protocol)
    requires
        p != Protocol::DecNet,
    ensures
        ({
            let pp = spec_render_protocol(Some(p));
            &&& pp.len() >= 4
            &&& pp[pp.len() - 1] == '/'
            &&& no_char(pp.take(pp.len() - 1), '/')
            &&& spec_protocol(pp.take(pp.len() - 1)) == Some(p)
        }),
{
    let pp = spec_render_protocol(Some(p));
    let tok = pp.take(pp.len() - 1);
    match p {
        Protocol::Tcp => {
            assert(tok =~= seq!['t', 'c', 'p']);
        },
        Protocol::Inet => {
            assert(tok =~= seq!['i', 'n', 'e', 't']);
            assert(tok != seq!['t', 'c', 'p']);
        },
        Protocol::Inet6 => {
            assert(tok =~= seq!['i', 'n', 'e', 't', '6']);
            assert(tok != seq!['t', 'c', 'p']);
            assert(tok != seq!['i', 'n', 'e', 't']);
        },
        Protocol::Unix => {
            assert(tok =~= seq!['u', 'n', 'i', 'x']);
            assert(tok != seq!['t', 'c', 'p']);
            assert(tok[0] == 'u');
            assert(tok != seq!['i', 'n', 'e', 't']);
            assert(tok != seq!['i', 'n', 'e', 't', '6']);
        },
        Protocol::DecNet => {},
    }
}

proof fn lemma_host_split(h: HostnameModel, tail: Seq<char>)
    requires
        no_char(tail, ':'),
        match h {
            HostnameModel::Other(t) => t.len() > 0 && t[t.len() - 1] != ':' && t != seq!['u', 'n', 'i', 'x']
                && !(t.len() >= 2 && t[0] == '[' && t[t.len() - 1] == ']'),
            _ => true,
        },
    ensures
        ({
            let hh = spec_render_hostname(Some(h));
            &&& hh.len() >= 2
            &&& last_ix(hh + tail, ':') == hh.len() - 1
            &&& spec_hostname((hh + tail).take(hh.len() - 1)) == h
        }),
{
    let hh = spec_render_hostname(Some(h));
    assert(hh[hh.len() - 1] == ':');
    crate::chars::lemma_last_ix_append(hh, tail, ':');
    let front = (hh + tail).take(hh.len() - 1);
    match h {
        HostnameModel::DecNet(t) => {
            assert(front =~= t + seq![':']);
            assert(front[front.len() - 1] == ':');
            assert(front.take(front.len() - 1) =~= t);
        },
        HostnameModel::Inet6(t) => {
            assert(front =~= seq!['['] + t + seq![']']);
            assert(front[front.len() - 1] == ']');
            assert(front[0] == '[');
            assert(front.subrange(1, front.len() - 1) =~= t);
        },
        HostnameModel::Unix => {
            assert(front =~= seq!['u', 'n', 'i', 'x']);
            assert(front[front.len() - 1] == 'x');
        },
        HostnameModel::Other(t) => {
            assert(front =~= t);
            assert(front[front.len() - 1] != ':');
            assert(front != seq!['u', 'n', 'i', 'x']);
        },
    }
}

/// Round trip of the display-specifier grammar: rendering any
/// [`renderable`] display name to its canonical string and parsing that
/// string gives back exactly the same protocol, host, display and screen
/// fields.
#[verifier::rlimit(100)]
#[verifier::spinoff_prover]
pub proof fn lemma_parse_render_round_trip(m: DisplayNameModel)
    requires
        renderable(m),
    ensures
        spec_parse(spec_render(m)) == Ok::<DisplayNameModel, DisplayNameParseError>(m),
{
    let pp = spec_render_protocol(m.protocol);
    let hh = spec_render_hostname(m.hostname);
    let dd = dec_signed(m.display as int);
    let cc = match m.screen {
        Some(v) => seq!['.'] + dec_signed(v as int),
        None => Seq::<char>::empty(),
    };
    let s = spec_render(m);
    let tail = dd + cc;
    assert(s =~= pp + (hh + tail));

    lemma_dec_signed_sep_free(m.display as int);
    if m.screen is Some {
        lemma_dec_signed_sep_free(m.screen->Some_0 as int);
    }
    assert forall|i: int| 0 <= i < tail.len() implies tail[i] != ':' && tail[i] != '/' by {
        if i < dd.len() {
            assert(tail[i] == dd[i]);
        } else {
            assert(tail[i] == cc[i - dd.len()]);
            if m.screen is Some {
                let ds = dec_signed(m.screen->Some_0 as int);
                if i - dd.len() > 0 {
                    assert(cc[i - dd.len()] == ds[i - dd.len() - 1]);
                }
            }
        }
    }

    // The slash split: the first slash ends the protocol token; with no
    // protocol there is no slash at all.
    let slash = first_ix(s, '/');
    let rest1 = if slash >= 0 {
        s.skip(slash + 1)
    } else {
        s
    };
    match m.protocol {
        Some(p) => {
            lemma_protocol_token(p);
            let tok = pp.take(pp.len() - 1);
            assert(pp =~= tok + seq!['/']);
            assert(s =~= tok + (seq!['/'] + (hh + tail)));
            assert((seq!['/'] + (hh + tail))[0] == '/');
            crate::chars::lemma_first_ix_append(tok, seq!['/'] + (hh + tail), '/');
            assert(first_ix(seq!['/'] + (hh + tail), '/') == 0);
            assert(slash == tok.len());
            assert(s.take(slash) =~= tok);
            assert(spec_protocol(s.take(slash)) == Some(p));
            assert(rest1 =~= hh + tail);
        },
        None => {
            // Every host form either contains no slash by assumption or is
            // built from slash-free pieces.
            assert forall|i: int| 0 <= i < s.len() implies s[i] != '/' by {
                assert(s[i] == (hh + tail)[i]);
                if i < hh.len() {
                    match m.hostname {
                        Some(HostnameModel::DecNet(t)) => {
                            assert(hh =~= t + seq![':', ':']);
                            if i < t.len() {
                                assert(hh[i] == t[i]);
                            }
                        },
                        Some(HostnameModel::Inet6(t)) => {
                            assert(hh =~= seq!['['] + t + seq![']', ':']);
                            if 1 <= i < t.len() + 1 {
                                assert(hh[i] == t[i - 1]);
                            }
                        },
                        Some(HostnameModel::Unix) => {},
                        Some(HostnameModel::Other(t)) => {
                            assert(hh =~= t + seq![':']);
                            if i < t.len() {
                                assert(hh[i] == t[i]);
                            }
                        },
                        None => {},
                    }
                } else {
                    assert(s[i] == tail[i - hh.len()]);
                }
            }
            crate::chars::lemma_first_ix(s, '/');
            assert(slash == -1);
            assert(rest1 =~= hh + tail);
        },
    }

    // The colon split: the last colon ends the host field; with no host
    // there is no colon at all.
    let colon = last_ix(rest1, ':');
    let rest2 = if colon >= 0 {
        rest1.skip(colon + 1)
    } else {
        rest1
    };
    match m.hostname {
        Some(h) => {
            lemma_host_split(h, tail);
            assert(last_ix(hh + tail, ':') == hh.len() - 1);
            assert(colon == hh.len() - 1);
            assert(colon >= 1);
            assert(rest1.take(colon) == (hh + tail).take(hh.len() - 1));
            assert(spec_hostname(rest1.take(colon)) == h);
            assert(rest2 =~= tail);
        },
        None => {
            assert(rest1 =~= tail);
            crate::chars::lemma_last_ix(rest1, ':');
            assert(colon == -1);
            assert(rest2 =~= tail);
        },
    }

    // The dot split: the last dot starts the screen number; with no screen
    // there is no dot at all.
    let dot = last_ix(rest2, '.');
    let disp_txt = if dot >= 0 {
        rest2.take(dot)
    } else {
        rest2
    };
    crate::numerals::lemma_dec_parse_round_trip(m.display as int);
    match m.screen {
        Some(v) => {
            let ds = dec_signed(v as int);
            assert(rest2 =~= (dd + seq!['.']) + ds);
            crate::chars::lemma_last_ix_append(dd + seq!['.'], ds, '.');
            assert((dd + seq!['.'])[(dd + seq!['.']).len() - 1] == '.');
            assert(last_ix(dd + seq!['.'], '.') == dd.len());
            assert(dot == dd.len());
            assert(rest2.skip(dot + 1) =~= ds);
            crate::numerals::lemma_dec_parse_round_trip(v as int);
            assert(parse_i16_spec(rest2.skip(dot + 1)) == Some(v));
            assert(disp_txt =~= dd);
            assert(parse_i16_spec(disp_txt) == Some(m.display));
        },
        None => {
            assert(rest2 =~= dd);
            crate::chars::lemma_last_ix(rest2, '.');
            assert forall|i: int| 0 <= i < rest2.len() implies rest2[i] != '.' by {
                assert(rest2[i] == dd[i]);
            }
            assert(dot == -1);
            assert(disp_txt =~= dd);
            assert(parse_i16_spec(disp_txt) == Some(m.display));
        },
    }
}

/// Every display name the parser accepts is [`renderable`]: the parser
/// never yields a DECnet protocol (no token maps to it), never yields an
/// empty, colon-terminated, bracketed or literal-`unix` plain host (those
/// syntaxes classify differently), and with no protocol in the input there
/// was no slash for any host text to contain.
pub proof fn lemma_parse_result_renderable(s: Seq<char>)
    requires
        spec_parse(s) is Ok,
    ensures
        renderable(spec_parse(s)->Ok_0),
{
    let m = spec_parse(s)->Ok_0;
    let slash = first_ix(s, '/');
    let rest1 = if slash >= 0 {
        s.skip(slash + 1)
    } else {
        s
    };
    let colon = last_ix(rest1, ':');
    crate::chars::lemma_first_ix(s, '/');
    crate::chars::lemma_last_ix(rest1, ':');
    if colon >= 1 {
        let h = rest1.take(colon);
        assert(m.hostname == Some(spec_hostname(h)));
        if slash < 0 {
            // No slash anywhere in the input, so none in any host text.
            assert forall|i: int| 0 <= i < h.len() implies h[i] != '/' by {
                assert(h[i] == s[i]);
            }
            match spec_hostname(h) {
                HostnameModel::DecNet(t) => {
                    assert(forall|i: int| 0 <= i < t.len() ==> t[i] == h[i]);
                },
                HostnameModel::Inet6(t) => {
                    assert(forall|i: int| 0 <= i < t.len() ==> t[i] == h[i + 1]);
                },
                HostnameModel::Unix => {},
                HostnameModel::Other(t) => {},
            }
        }
    }
}

/// Round trip of the display-specifier grammar, stated over specifiers:
/// for every string the parser accepts, re-rendering the parsed address to
/// canonical form and parsing that reproduces exactly the same protocol,
/// host, display and screen fields.
pub proof fn lemma_parse_then_render_round_trip(s: Seq<char>)
    requires
        spec_parse(s) is Ok,
    ensures
        spec_parse(spec_render(spec_parse(s)->Ok_0)) == spec_parse(s),
{
    lemma_parse_result_renderable(s);
    lemma_parse_render_round_trip(spec_parse(s)->Ok_0);
}

} // verus!
