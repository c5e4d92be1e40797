//! Configuration contract for an NDI (Network Device Interface) output.
//!
//! NDI is used for LAN contribution and monitoring. Like the SRT/RIST
//! contribution contracts, this module provides a validated, deterministic
//! configuration without requiring the platform-specific NDI runtime to be
//! present. GStreamer exposes the sender as the `ndisink` element from the
//! `ndi` plugin. Publishing is off by default so a feed is never announced
//! unintentionally.
use vstd::prelude::*;

use crate::text::{all_ws, char_count, is_blank, owned, push_char, trim, trim_seq};

verus! {

/// NDI output configuration.
#[derive(Debug, Clone, PartialEq, Eq)]
pub struct NdiOutput {
    /// The NDI source name announced on the local network.
    pub name: String,
    /// Whether the output is actively publishing. Off by default so a NDI
    /// feed is never published unintentionally.
    pub active: bool,
    /// Video group ID (optional group filter, e.g. for VLAN workflows).
    pub group: Option<String>,
}

/// The escaped form of one character inside a double-quoted property value.
pub open spec fn escape_char(c: char) -> Seq<char> {
    if c == '\\' {
        seq!['\\', '\\']
    } else if c == '"' {
        seq!['\\', '"']
    } else {
        seq![c]
    }
}

/// `s` with every backslash and double quote preceded by a backslash.
pub open spec fn escape_seq(s: Seq<char>) -> Seq<char>
    decreases s.len(),
{
    if s.len() == 0 {
        Seq::empty()
    } else {
        escape_seq(s.drop_last()) + escape_char(s.last())
    }
}

/// How a double-quoted property value is read back: a backslash takes the
/// next character literally, an unescaped double quote ends the value
/// (`None`: the text would leave the quotes), a lone trailing backslash is
/// malformed (`None`).
pub open spec fn read_quoted(t: Seq<char>) -> Option<Seq<char>>
    decreases t.len(),
{
    if t.len() == 0 {
        Some(Seq::empty())
    } else if t[0] == '\\' {
        if t.len() < 2 {
            None
        } else {
            match read_quoted(t.subrange(2, t.len() as int)) {
                Some(rest) => Some(seq![t[1]] + rest),
                None => None,
            }
        }
    } else if t[0] == '"' {
        None
    } else {
        match read_quoted(t.drop_first()) {
            Some(rest) => Some(seq![t[0]] + rest),
            None => None,
        }
    }
}

proof fn lemma_escape_front(s: Seq<char>)
    requires
        s.len() > 0,
    ensures
        escape_seq(s) == escape_char(s[0]) + escape_seq(s.drop_first()),
    decreases s.len(),
{
    if s.len() > 1 {
        lemma_escape_front(s.drop_last());
        assert(s.drop_last().drop_first() =~= s.drop_first().drop_last());
        assert(s.drop_first().last() == s.last());
    } else {
        assert(s.drop_first() =~= Seq::<char>::empty());
        assert(s.drop_last() =~= Seq::<char>::empty());
    }
}

/// Escaping cannot break out of the quotes: reading the escaped text back
/// as a quoted value never meets an unescaped quote and yields exactly the
/// original text.
pub proof fn lemma_escape_round_trip(s: Seq<char>)
    ensures
        read_quoted(escape_seq(s)) == Some(s),
    decreases s.len(),
{
    if s.len() > 0 {
        lemma_escape_front(s);
        lemma_escape_round_trip(s.drop_first());
        let e = escape_seq(s);
        let c = s[0];
        if c == '\\' || c == '"' {
            assert(e.subrange(2, e.len() as int) =~= escape_seq(s.drop_first()));
        } else {
            assert(e.drop_first() =~= escape_seq(s.drop_first()));
        }
        assert(seq![c] + s.drop_first() =~= s);
    } else {
        assert(escape_seq(s) =~= Seq::<char>::empty());
        assert(s =~= Seq::<char>::empty());
    }
}

/// Escape double quotes and backslashes for a GStreamer parse-string
/// property.
fn escape(value: &str) -> (r: String)
    ensures
        r@ == escape_seq(value@),
{
    let mut out = String::new();
    let n = value.unicode_len();
    let mut i: usize = 0;
    while i < n
        invariant
            n == value@.len(),
            i <= n,
            out@ == escape_seq(value@.subrange(0, i as int)),
        decreases n - i,
    {
        let c = value.get_char(i);
        proof {
            assert(value@.subrange(0, i + 1).drop_last() =~= value@.subrange(0, i as int));
            assert(value@.subrange(0, i + 1).last() == c);
        }
        if c == '\\' {
            out.append("\\\\");
            proof {
                reveal_strlit("\\\\");
            }
        } else if c == '"' {
            out.append("\\\"");
            proof {
                reveal_strlit("\\\"");
            }
        } else {
            push_char(&mut out, c);
        }
        proof {
            assert(out@ =~= escape_seq(value@.subrange(0, i + 1)));
        }
        i = i + 1;
    }
    proof {
        assert(value@.subrange(0, n as int) =~= value@);
    }
    out
}

impl Default for NdiOutput {
    fn default() -> (r: Self)
        ensures
            r.name@ == "Rivulet"@,
            !r.active,
            r.group.is_none(),
    {
        NdiOutput { name: owned("Rivulet"), active: false, group: None }
    }
}

impl NdiOutput {
    /// Longest source name (in characters, surrounding whitespace aside).
    pub const MAX_NAME_LEN: usize = 80;

    /// Why the configuration is rejected, if it is.
    pub open spec fn spec_error(&self) -> Option<Seq<char>> {
        if all_ws(self.name@) {
            Some("NDI source name must not be empty"@)
        } else if trim_seq(self.name@).len() > 80 {
            Some("NDI source name is too long"@)
        } else {
            match self.group {
                Some(g) => if g@.len() == 0 {
                    Some("NDI group must not be empty when set"@)
                } else {
                    None
                },
                None => None,
            }
        }
    }

    /// The sink description of a valid configuration: the trimmed, escaped
    /// source name and, when a non-empty group is set, the escaped group.
    pub open spec fn spec_fragment(&self) -> Seq<char> {
        let group = match self.group {
            Some(g) => if g@.len() == 0 {
                Seq::empty()
            } else {
                " ndi-groups=\""@ + escape_seq(g@) + "\""@
            },
            None => Seq::empty(),
        };
        "ndisink ndi-name=\""@ + escape_seq(trim_seq(self.name@)) + "\""@ + group + " "@
    }

    /// An output announcing `name`, publishing when `active`, in no group.
    pub fn new(name: &str, active: bool) -> (r: Self)
        ensures
            r.name@ == name@,
            r.active == active,
            r.group.is_none(),
    {
        NdiOutput { name: owned(name), active, group: None }
    }

    /// The same output restricted to `group`.
    pub fn with_group(self, group: &str) -> (r: Self)
        ensures
            r.name == self.name,
            r.active == self.active,
            r.group matches Some(g) && g@ == group@,
    {
        NdiOutput { group: Some(owned(group)), ..self }
    }

    /// Validate the NDI configuration without touching the network runtime.
    pub fn validate(&self) -> (r: Result<(), &'static str>)
        ensures
            match self.spec_error() {
                None => r.is_ok(),
                Some(m) => r matches Err(e) && e@ == m,
            },
    {
        if is_blank(self.name.as_str()) {
            return Err("NDI source name must not be empty");
        }
        if char_count(trim(self.name.as_str())) > NdiOutput::MAX_NAME_LEN {
            return Err("NDI source name is too long");
        }
        match &self.group {
            Some(group) => {
                if group.as_str().unicode_len() == 0 {
                    return Err("NDI group must not be empty when set");
                }
            },
            None => {},
        }
        Ok(())
    }

    /// The GStreamer NDI sender element name (`ndisink`), used for a runtime
    /// availability probe.
    pub fn sink_element_name(&self) -> (r: &'static str)
        ensures
            r@ == "ndisink"@,
    {
        "ndisink"
    }

    /// Whether this output should actually publish: it is active **and**
    /// the `ndisink` element exists in the current GStreamer installation
    /// (`plugin_available`, probed by the caller).
    pub fn should_publish(&self, plugin_available: bool) -> (r: bool)
        ensures
            r == (self.active && plugin_available),
    {
        self.active && plugin_available
    }

    /// A validated GStreamer sink fragment. The name is passed as the NDI
    /// source name so the feed is discoverable on the LAN; quotes and
    /// backslashes are escaped so a hostile name cannot break out of the
    /// parse string into extra pipeline arguments.
    pub fn validated_pipeline_sink_fragment(&self) -> (r: Result<String, &'static str>)
        ensures
            match self.spec_error() {
                None => r matches Ok(f) && f@ == self.spec_fragment(),
                Some(m) => r matches Err(e) && e@ == m,
            },
    {
        match self.validate() {
            Err(e) => return Err(e),
            Ok(()) => {},
        }
        let name = escape(trim(self.name.as_str()));
        let mut out = owned("ndisink ndi-name=\"");
        out.append(name.as_str());
        out.append("\"");
        match &self.group {
            Some(group) => {
                if group.as_str().unicode_len() != 0 {
                    out.append(" ndi-groups=\"");
                    let g = escape(group.as_str());
                    out.append(g.as_str());
                    out.append("\"");
                }
            },
            None => {},
        }
        out.append(" ");
        Ok(out)
    }
}

} // verus!
