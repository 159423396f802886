//! Pin strings of the printer configuration: `[!]<target>:<name>`, where
//! the target is `host` or the name of an MCU and a leading `!` inverts the pin.
use vstd::prelude::*;
use crate::strutil::{find_char, lemma_find_char_bounds, spec_find_char, str_eq};

verus! {

/// What drives a pin: the host, or the named MCU.
#[derive(Debug, Clone, PartialEq)]
pub enum PinTarget {
    Host,
    MCU(String),
}

/// A pin of the configuration.
#[derive(Debug, Clone)]
pub struct Pin {
    pub inverted: bool,
    pub target: PinTarget,
    pub name: String,
}

/// The value of a `PinTarget`.
pub enum PinTargetView {
    Host,
    MCU(Seq<char>),
}

/// The value of a `Pin`.
pub struct PinView {
    pub inverted: bool,
    pub target: PinTargetView,
    pub name: Seq<char>,
}

impl View for PinTarget {
    type V = PinTargetView;

    open spec fn view(&self) -> PinTargetView {
        match self {
            PinTarget::Host => PinTargetView::Host,
            PinTarget::MCU(m) => PinTargetView::MCU(m@),
        }
    }
}

impl View for Pin {
    type V = PinView;

    open spec fn view(&self) -> PinView {
        PinView { inverted: self.inverted, target: self.target@, name: self.name@ }
    }
}

/// Whether the text starts with `!`.
pub open spec fn spec_is_inverted(raw: Seq<char>) -> bool {
    raw.len() > 0 && raw[0] == '!'
}

/// The text after the optional `!`.
pub open spec fn spec_after_bang(raw: Seq<char>) -> Seq<char> {
    if spec_is_inverted(raw) { raw.drop_first() } else { raw }
}

/// What a pin string gives: split at the first `:` after the optional `!`
/// into the target and the name; the target `host` is the host. A string
/// without `:` or with an empty name is refused with a message.
pub open spec fn spec_parse_pin(raw: Seq<char>) -> Result<PinView, Seq<char>> {
    let inverted = spec_is_inverted(raw);
    let rest = spec_after_bang(raw);
    let c = spec_find_char(rest, ':', 0);
    if c >= rest.len() {
        Err("pin must specify a target MCU in '"@ + raw + "', e.g. 'host:"@ + rest + "'"@)
    } else {
        let mcu = rest.subrange(0, c);
        let name = rest.subrange(c + 1, rest.len() as int);
        if name.len() == 0 {
            Err("pin name cannot be empty in '"@ + raw + "'"@)
        } else {
            Ok(PinView {
                inverted,
                target: if mcu == "host"@ { PinTargetView::Host } else { PinTargetView::MCU(mcu) },
                name,
            })
        }
    }
}

/// The text of a target, with its `:`.
pub open spec fn spec_target_text(t: PinTargetView) -> Seq<char> {
    match t {
        PinTargetView::Host => "host"@ + ":"@,
        PinTargetView::MCU(m) => m + ":"@,
    }
}

/// The text of a pin: `!` when inverted, the target, `:`, the name.
pub open spec fn spec_pin_text(p: PinView) -> Seq<char> {
    (if p.inverted { "!"@ } else { Seq::empty() }) + spec_target_text(p.target) + p.name
}

/// A pin whose text reads back as the same pin: a non-empty name, and an MCU
/// target whose name holds no `:`, is not `host`, and does not start with
/// `!` unless the pin is inverted.
pub open spec fn spec_pin_reads_back(p: PinView) -> bool {
    &&& p.name.len() > 0
    &&& match p.target {
        PinTargetView::Host => true,
        PinTargetView::MCU(m) => {
            &&& forall|i: int| 0 <= i < m.len() ==> #[trigger] m[i] != ':'
            &&& m != "host"@
            &&& (!p.inverted ==> !(m.len() > 0 && m[0] == '!'))
        },
    }
}

impl Pin {
    /// Parses a pin string such as `!mcu:PA15` or `host:gpio4`.
    pub fn parse(raw: &str) -> (r: Result<Pin, String>)
        ensures
            match spec_parse_pin(raw@) {
                Ok(p) => r matches Ok(q) && q@ == p,
                Err(m) => r matches Err(e) && e@ == m,
            },
    {
        let n = raw.unicode_len();
        let inverted = n > 0 && raw.get_char(0) == '!';
        let rest = if inverted { raw.substring_char(1, n) } else { raw };
        assert(rest@ =~= spec_after_bang(raw@));
        let len = rest.unicode_len();
        let c = find_char(rest, ':');
        proof { lemma_find_char_bounds(rest@, ':', 0); }
        if c >= len {
            let mut msg = String::from_str("pin must specify a target MCU in '");
            msg.append(raw);
            msg.append("', e.g. 'host:");
            msg.append(rest);
            msg.append("'");
            return Err(msg);
        }
        let name = rest.substring_char(c + 1, len);
        if name.unicode_len() == 0 {
            let mut msg = String::from_str("pin name cannot be empty in '");
            msg.append(raw);
            msg.append("'");
            return Err(msg);
        }
        let mcu = rest.substring_char(0, c);
        let target = if str_eq(mcu, "host") {
            PinTarget::Host
        } else {
            PinTarget::MCU(String::from_str(mcu))
        };
        Ok(Pin { inverted, target, name: String::from_str(name) })
    }

    /// The pin string: `!` when inverted, the target, `:`, the name.
    pub fn to_string(&self) -> (r: String)
        ensures
            r@ == spec_pin_text(self@),
    {
        let mut out = String::new();
        if self.inverted {
            out.append("!");
        }
        match &self.target {
            PinTarget::Host => {
                out.append("host");
            },
            PinTarget::MCU(m) => {
                out.append(m.as_str());
            },
        }
        out.append(":");
        out.append(self.name.as_str());
        assert(out@ =~= spec_pin_text(self@));
        out
    }
}

/// A pin string that parses gives back the same string when printed.
pub proof fn lemma_pin_text_of_parse(raw: Seq<char>)
    ensures
        spec_parse_pin(raw) matches Ok(p) ==> spec_pin_text(p) == raw,
{
    if let Ok(p) = spec_parse_pin(raw) {
        let rest = spec_after_bang(raw);
        let c = spec_find_char(rest, ':', 0);
        lemma_find_char_bounds(rest, ':', 0);
        reveal_strlit(":");
        reveal_strlit("!");
        let mcu = rest.subrange(0, c);
        assert(rest =~= mcu + ":"@ + p.name);
        if mcu == "host"@ {
            assert(spec_target_text(p.target) =~= mcu + ":"@);
        }
        assert(raw =~= (if p.inverted { "!"@ } else { Seq::empty() }) + rest);
        assert(spec_pin_text(p) =~= raw);
    }
}

/// A pin that reads back (see `spec_pin_reads_back`) parses from its own
/// text to itself.
pub proof fn lemma_parse_of_pin_text(p: PinView)
    requires
        spec_pin_reads_back(p),
    ensures
        spec_parse_pin(spec_pin_text(p)) == Ok::<PinView, Seq<char>>(p),
{
    reveal_strlit(":");
    reveal_strlit("!");
    reveal_strlit("host");
    let raw = spec_pin_text(p);
    let head = match p.target {
        PinTargetView::Host => "host"@,
        PinTargetView::MCU(m) => m,
    };
    assert(spec_target_text(p.target) == head + ":"@);
    let rest = head + ":"@ + p.name;
    if p.inverted {
        assert(raw =~= seq!['!'] + rest);
        assert(raw.drop_first() =~= rest);
    } else {
        assert(raw =~= rest);
        assert(head.len() > 0 ==> head[0] != '!');
    }
    assert(spec_after_bang(raw) =~= rest);
    assert forall|i: int| 0 <= i < head.len() implies #[trigger] rest[i] != ':' by {
        assert(rest[i] == head[i]);
    }
    assert(rest[head.len() as int] == ':');
    lemma_find_first(rest, ':', head.len() as int, 0);
    assert(rest.subrange(0, head.len() as int) =~= head);
    assert(rest.subrange(head.len() as int + 1, rest.len() as int) =~= p.name);
}

proof fn lemma_find_first(s: Seq<char>, c: char, at: int, i: int)
    requires
        0 <= i <= at < s.len(),
        s[at] == c,
        forall|k: int| 0 <= k < at ==> #[trigger] s[k] != c,
    ensures
        spec_find_char(s, c, i) == at,
    decreases at - i,
{
    if i < at {
        lemma_find_first(s, c, at, i + 1);
    }
}

} // verus!
