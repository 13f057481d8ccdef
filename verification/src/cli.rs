//! Client-side pieces of the command-line tool: its settings and the
//! colouring of statuses and sides.
use colored::Colorize;
use vstd::prelude::*;
use crate::text::{has_infix, str_eq};

verus! {

/// Gateway used when none is configured.
pub open spec fn default_gateway() -> Seq<char> {
    "http://localhost:9090"@
}

/// Settings of the command-line tool.
#[derive(Debug, Clone)]
pub struct Config {
    pub gateway_url: String,
    pub api_key: Option<String>,
}

impl Default for Config {
    fn default() -> (c: Self)
        ensures
            c.gateway_url@ == default_gateway(),
            c.api_key is None,
    {
        proof { reveal_strlit("http://localhost:9090"); }
        Config { gateway_url: "http://localhost:9090".to_string(), api_key: None }
    }
}

/// The text without its trailing slashes.
pub open spec fn trim_trailing_slashes(s: Seq<char>) -> Seq<char>
    decreases s.len(),
{
    if s.len() > 0 && s.last() == '/' {
        trim_trailing_slashes(s.drop_last())
    } else {
        s
    }
}

impl Config {
    /// These settings, with the gateway replaced when one is given.
    pub fn with_url(self, url: Option<String>) -> (c: Self)
        ensures
            c.gateway_url@ == (match url {
                Some(u) => u@,
                None => self.gateway_url@,
            }),
            c.api_key == self.api_key,
    {
        let mut c = self;
        match url {
            Some(u) => {
                c.gateway_url = u;
            },
            None => {},
        }
        c
    }

    /// These settings, with the API key replaced when one is given.
    pub fn with_api_key(self, api_key: Option<String>) -> (c: Self)
        ensures
            c.gateway_url == self.gateway_url,
            c.api_key == (match api_key {
                Some(k) => Some(k),
                None => self.api_key,
            }),
    {
        let mut c = self;
        match api_key {
            Some(k) => {
                c.api_key = Some(k);
            },
            None => {},
        }
        c
    }

    /// The gateway address without trailing slashes.
    pub fn gateway_url(&self) -> (u: String)
        ensures
            u@ == trim_trailing_slashes(self.gateway_url@),
    {
        let s = self.gateway_url.as_str();
        let mut end: usize = s.unicode_len();
        assert(s@.subrange(0, end as int) =~= s@);
        while end > 0 && s.get_char(end - 1) == '/'
            invariant
                end <= s@.len(),
                trim_trailing_slashes(s@.subrange(0, end as int)) == trim_trailing_slashes(s@),
            decreases end,
        {
            let ghost t = s@.subrange(0, end as int);
            assert(t.drop_last() =~= s@.subrange(0, end - 1));
            end = end - 1;
        }
        let ghost t = s@.subrange(0, end as int);
        assert(trim_trailing_slashes(t) == t);
        String::from_str(s.substring_char(0, end))
    }
}

/// Terminal colours used by the tool.
#[derive(Debug, Clone, Copy, PartialEq, Eq, Structural)]
pub enum Paint {
    Green,
    Red,
    Yellow,
}

/// The escape sequence that starts a colour.
pub open spec fn paint_start(c: Paint) -> Seq<char> {
    match c {
        Paint::Green => "\x1B[32m"@,
        Paint::Red => "\x1B[31m"@,
        Paint::Yellow => "\x1B[33m"@,
    }
}

/// The escape sequence that ends a colour.
pub open spec fn paint_end() -> Seq<char> {
    "\x1B[0m"@
}

/// `r` is `s` in colour `c`, or `s` itself when the terminal takes no colour.
pub open spec fn painted(r: Seq<char>, s: Seq<char>, c: Paint) -> bool {
    r == s || r == paint_start(c) + s + paint_end()
}

/// Renders a text in a colour through the `colored` crate (`green`, `red`,
/// `yellow`, then `to_string`). Whether colour is emitted depends on the
/// environment the process runs in, so either outcome is allowed: the text
/// alone, or the text between the colour's start and reset sequences.
#[verifier::external_body]
fn paint(s: &str, c: Paint) -> (r: String)
    requires
        !has_infix(s@, paint_end()),
    ensures
        painted(r@, s@, c),
{
    match c {
        Paint::Green => s.green().to_string(),
        Paint::Red => s.red().to_string(),
        Paint::Yellow => s.yellow().to_string(),
    }
}

/// Colour of an order or market status.
pub open spec fn status_paint(status: Seq<char>) -> Option<Paint> {
    if status == "open"@ || status == "filled"@ {
        Some(Paint::Green)
    } else if status == "closed"@ || status == "cancelled"@ {
        Some(Paint::Red)
    } else if status == "pending"@ {
        Some(Paint::Yellow)
    } else {
        None
    }
}

/// Colour of an order side.
pub open spec fn side_paint(side: Seq<char>) -> Option<Paint> {
    if side == "buy"@ {
        Some(Paint::Green)
    } else if side == "sell"@ {
        Some(Paint::Red)
    } else {
        None
    }
}

/// A known status carries no escape sequence.
proof fn lemma_no_reset(s: Seq<char>)
    requires
        s.len() < paint_end().len() || forall|k: int| 0 <= k < s.len() ==> s[k] != '\x1B',
    ensures
        !has_infix(s, paint_end()),
{
    reveal_strlit("\x1B[0m");
    if has_infix(s, paint_end()) {
        let k = choose|k: int| 0 <= k && k + paint_end().len() <= s.len() && #[trigger] s.subrange(k, k + paint_end().len()) == paint_end();
        assert(s.subrange(k, k + paint_end().len())[0] == '\x1B');
    }
}

/// A status, coloured: open and filled in green, closed and cancelled in
/// red, pending in yellow, anything else as it is.
pub fn format_status(status: &str) -> (r: String)
    ensures
        match status_paint(status@) {
            Some(c) => painted(r@, status@, c),
            None => r@ == status@,
        },
{
    proof {
        reveal_strlit("open");
        reveal_strlit("filled");
        reveal_strlit("closed");
        reveal_strlit("cancelled");
        reveal_strlit("pending");
    }
    if str_eq(status, "open") || str_eq(status, "filled") {
        proof { lemma_no_reset(status@); }
        paint(status, Paint::Green)
    } else if str_eq(status, "closed") || str_eq(status, "cancelled") {
        proof { lemma_no_reset(status@); }
        paint(status, Paint::Red)
    } else if str_eq(status, "pending") {
        proof { lemma_no_reset(status@); }
        paint(status, Paint::Yellow)
    } else {
        String::from_str(status)
    }
}

/// A side, coloured: buy in green, sell in red, anything else as it is.
pub fn format_side(side: &str) -> (r: String)
    ensures
        match side_paint(side@) {
            Some(c) => painted(r@, side@, c),
            None => r@ == side@,
        },
{
    proof {
        reveal_strlit("buy");
        reveal_strlit("sell");
    }
    if str_eq(side, "buy") {
        proof { lemma_no_reset(side@); }
        paint(side, Paint::Green)
    } else if str_eq(side, "sell") {
        proof { lemma_no_reset(side@); }
        paint(side, Paint::Red)
    } else {
        String::from_str(side)
    }
}

} // verus!
