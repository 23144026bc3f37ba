//! The network tools: their registry, their command-line names, the input
//! they take and the plain-text form of their results.
use vstd::prelude::*;

use crate::net::{ipv4_octets_spec, ipv6_octets_spec, parse_ipv4_chars, parse_ipv6_chars};
use crate::text::{
    lemma_string_views_push, chars_of, concat2, join, join_strings, owned, pad_right, pad_right_str, parse_u16,
    parse_u16_spec, push_str, rsplit_once, rsplit_once_char, str_eq, string_of, string_views,
    trim, trim_chars,
};

pub mod dns;
pub mod ip_info;
pub mod ping;
pub mod tls;
pub mod traceroute;
pub mod whois;

verus! {

#[derive(Clone, Copy, Debug, PartialEq, Eq, Hash, Structural)]
pub enum ToolId {
    DnsLookup,
    WhoisLookup,
    IpInformation,
    PortCheck,
    TlsInspector,
    Ping,
    Traceroute,
}

#[derive(Clone, Copy, Debug, PartialEq, Eq, Structural)]
pub enum ToolAvailability {
    Runnable,
    Planned,
}

#[derive(Clone, Copy, Debug)]
pub struct ToolField {
    pub key: &'static str,
    pub label: &'static str,
    pub placeholder: &'static str,
}

/// A field as plain values.
pub struct FieldView {
    pub key: Seq<char>,
    pub label: Seq<char>,
    pub placeholder: Seq<char>,
}

impl View for ToolField {
    type V = FieldView;

    open spec fn view(&self) -> FieldView {
        FieldView { key: self.key@, label: self.label@, placeholder: self.placeholder@ }
    }
}

#[derive(Clone, Debug)]
pub struct ToolDefinition {
    pub id: ToolId,
    pub name: &'static str,
    pub description: &'static str,
    pub availability: ToolAvailability,
    pub fields: &'static [ToolField],
}

/// A definition as plain values.
pub struct DefinitionView {
    pub id: ToolId,
    pub name: Seq<char>,
    pub description: Seq<char>,
    pub availability: ToolAvailability,
    pub fields: Seq<FieldView>,
}

pub open spec fn field_views(v: Seq<ToolField>) -> Seq<FieldView> {
    v.map_values(|f: ToolField| f@)
}

impl View for ToolDefinition {
    type V = DefinitionView;

    open spec fn view(&self) -> DefinitionView {
        DefinitionView {
            id: self.id,
            name: self.name@,
            description: self.description@,
            availability: self.availability,
            fields: field_views(self.fields@),
        }
    }
}

pub open spec fn definition_views(v: Seq<ToolDefinition>) -> Seq<DefinitionView> {
    v.map_values(|d: ToolDefinition| d@)
}

/// The input of a tool: field keys and their values, each key at most
/// once.
#[derive(Clone, Debug, Default)]
pub struct ToolInput {
    pub values: Vec<(String, String)>,
}

/// The value stored under `key`, if any.
pub open spec fn input_value(values: Seq<(String, String)>, key: Seq<char>) -> Option<Seq<char>>
    decreases values.len(),
{
    if values.len() == 0 {
        None
    } else if values.last().0@ == key {
        Some(values.last().1@)
    } else {
        input_value(values.drop_last(), key)
    }
}

/// No key occurs twice.
pub open spec fn keys_distinct(values: Seq<(String, String)>) -> bool {
    forall|i: int, j: int|
        0 <= i < j < values.len() ==> #[trigger] values[i].0@ != #[trigger] values[j].0@
}

impl ToolInput {
    pub open spec fn wf(&self) -> bool {
        keys_distinct(self.values@)
    }

    pub open spec fn lookup(&self, key: Seq<char>) -> Option<Seq<char>> {
        input_value(self.values@, key)
    }

    /// An input with no values.
    pub fn new() -> (r: Self)
        ensures
            r.wf(),
            forall|k: Seq<char>| r.lookup(k) is None,
    {
        ToolInput { values: Vec::new() }
    }

    pub fn get(&self, key: &str) -> (r: Option<&str>)
        ensures
            match r {
                Some(v) => self.lookup(key@) == Some(v@),
                None => self.lookup(key@) is None,
            },
    {
        let mut j: usize = self.values.len();
        assert(self.values@.take(j as int) =~= self.values@);
        while j > 0
            invariant
                j <= self.values.len(),
                input_value(self.values@.take(j as int), key@) == self.lookup(key@),
            decreases j,
        {
            assert(self.values@.take(j as int).drop_last() =~= self.values@.take(j - 1));
            if str_eq(self.values[j - 1].0.as_str(), key) {
                return Some(self.values[j - 1].1.as_str());
            }
            j = j - 1;
        }
        None
    }

    /// Stores `value` under `key`, replacing what was there.
    pub fn insert(&mut self, key: String, value: String)
        requires
            old(self).wf(),
        ensures
            final(self).wf(),
            final(self).lookup(key@) == Some(value@),
            forall|k: Seq<char>| k != key@ ==> final(self).lookup(k) == old(self).lookup(k),
    {
        let ghost start = self.values@;
        let mut i: usize = 0;
        while i < self.values.len()
            invariant
                self.values@ == start,
                start == old(self).values@,
                keys_distinct(start),
                i <= start.len(),
                forall|j: int| 0 <= j < i ==> start[j].0@ != key@,
            decreases start.len() - i,
        {
            if str_eq(self.values[i].0.as_str(), key.as_str()) {
                let ghost old_values = self.values@;
                self.values.set(i, (key, value));
                assert(self.values@[i as int].0@ == key@);
                proof {
                    lemma_set_entry(old_values, i as int, self.values@);
                    assert forall|k: Seq<char>| k != key@ implies input_value(self.values@, k)
                        == input_value(start, k) by {
                        assert(k != self.values@[i as int].0@);
                    }
                }
                return;
            }
            i = i + 1;
        }
        let ghost old_values = self.values@;
        self.values.push((key, value));
        assert(self.values@.drop_last() =~= old_values);
        proof {
            lemma_push_entry(old_values, self.values@);
        }
    }
}

proof fn lemma_absent(values: Seq<(String, String)>, key: Seq<char>)
    requires
        forall|j: int| 0 <= j < values.len() ==> values[j].0@ != key,
    ensures
        input_value(values, key) is None,
    decreases values.len(),
{
    if values.len() > 0 {
        lemma_absent(values.drop_last(), key);
    }
}

proof fn lemma_found(values: Seq<(String, String)>, i: int)
    requires
        keys_distinct(values),
        0 <= i < values.len(),
    ensures
        input_value(values, values[i].0@) == Some(values[i].1@),
    decreases values.len(),
{
    if i < values.len() - 1 {
        assert(values[i].0@ != values[values.len() - 1].0@);
        assert(values.drop_last()[i] == values[i]);
        lemma_found(values.drop_last(), i);
    }
}

proof fn lemma_same_other_keys(a: Seq<(String, String)>, b: Seq<(String, String)>, k: Seq<char>)
    requires
        a.len() == b.len(),
        forall|j: int| 0 <= j < a.len() ==> (a[j].0@ == k) == (b[j].0@ == k),
        forall|j: int| 0 <= j < a.len() && a[j].0@ == k ==> a[j].1@ == b[j].1@,
    ensures
        input_value(a, k) == input_value(b, k),
    decreases a.len(),
{
    if a.len() > 0 {
        lemma_same_other_keys(a.drop_last(), b.drop_last(), k);
    }
}

proof fn lemma_set_entry(old_values: Seq<(String, String)>, i: int, new_values: Seq<
    (String, String),
>)
    requires
        keys_distinct(old_values),
        0 <= i < old_values.len(),
        new_values == old_values.update(i, new_values[i]),
        new_values[i].0@ == old_values[i].0@,
    ensures
        keys_distinct(new_values),
        input_value(new_values, new_values[i].0@) == Some(new_values[i].1@),
        forall|k: Seq<char>|
            k != new_values[i].0@ ==> input_value(new_values, k) == input_value(old_values, k),
{
    assert forall|a: int, b: int| 0 <= a < b < new_values.len() implies #[trigger] new_values[a].0@
        != #[trigger] new_values[b].0@ by {
        assert(old_values[a].0@ != old_values[b].0@);
    }
    lemma_found(new_values, i);
    assert forall|k: Seq<char>| k != new_values[i].0@ implies input_value(new_values, k)
        == input_value(old_values, k) by {
        lemma_same_other_keys(new_values, old_values, k);
    }
}

proof fn lemma_push_entry(old_values: Seq<(String, String)>, new_values: Seq<(String, String)>)
    requires
        keys_distinct(old_values),
        new_values.len() == old_values.len() + 1,
        new_values.drop_last() == old_values,
        forall|j: int| 0 <= j < old_values.len() ==> old_values[j].0@ != new_values.last().0@,
    ensures
        keys_distinct(new_values),
        input_value(new_values, new_values.last().0@) == Some(new_values.last().1@),
        forall|k: Seq<char>|
            k != new_values.last().0@ ==> input_value(new_values, k) == input_value(old_values, k),
{
    assert forall|a: int, b: int| 0 <= a < b < new_values.len() implies #[trigger] new_values[a].0@
        != #[trigger] new_values[b].0@ by {
        if b < old_values.len() {
            assert(new_values[a] == old_values[a]);
            assert(new_values[b] == old_values[b]);
        } else {
            assert(new_values[a] == old_values[a]);
        }
    }
}

#[derive(Clone, Debug)]
pub struct ToolResultSection {
    pub label: String,
    pub lines: Vec<String>,
}

/// A section as plain values.
pub struct SectionView {
    pub label: Seq<char>,
    pub lines: Seq<Seq<char>>,
}

impl View for ToolResultSection {
    type V = SectionView;

    open spec fn view(&self) -> SectionView {
        SectionView { label: self.label@, lines: string_views(self.lines@) }
    }
}

pub open spec fn section_views(v: Seq<ToolResultSection>) -> Seq<SectionView> {
    v.map_values(|s: ToolResultSection| s@)
}

pub proof fn lemma_section_views_push(v: Seq<ToolResultSection>, s: ToolResultSection)
    ensures
        section_views(v.push(s)) == section_views(v).push(s@),
{
    assert(section_views(v.push(s)) =~= section_views(v).push(s@));
}

#[derive(Clone, Debug)]
pub struct ToolResult {
    pub title: String,
    pub sections: Vec<ToolResultSection>,
    pub raw_output: String,
}

/// A result as plain values.
pub struct ResultView {
    pub title: Seq<char>,
    pub sections: Seq<SectionView>,
    pub raw_output: Seq<char>,
}

impl View for ToolResult {
    type V = ResultView;

    open spec fn view(&self) -> ResultView {
        ResultView {
            title: self.title@,
            sections: section_views(self.sections@),
            raw_output: self.raw_output@,
        }
    }
}

#[derive(Clone, Copy, Debug, PartialEq, Eq, Structural)]
pub enum ToolExecutionState {
    Idle,
    Running,
    Succeeded,
    Failed,
}

/// A command line for a tool, owned.
#[derive(Clone, Debug)]
pub struct ToolCommandSpec {
    pub display: String,
    pub program: String,
    pub args: Vec<String>,
}

/// A command line as plain values.
pub struct ToolCommandView {
    pub display: Seq<char>,
    pub program: Seq<char>,
    pub args: Seq<Seq<char>>,
}

impl View for ToolCommandSpec {
    type V = ToolCommandView;

    open spec fn view(&self) -> ToolCommandView {
        ToolCommandView {
            display: self.display@,
            program: self.program@,
            args: string_views(self.args@),
        }
    }
}

pub open spec fn command_views(v: Seq<ToolCommandSpec>) -> Seq<ToolCommandView> {
    v.map_values(|c: ToolCommandSpec| c@)
}

// ---------------------------------------------------------------------------
// The registry
// ---------------------------------------------------------------------------
pub open spec fn field(key: Seq<char>, label: Seq<char>, placeholder: Seq<char>) -> FieldView {
    FieldView { key, label, placeholder }
}

/// What each tool is called, what it does and which fields it asks for.
pub open spec fn standard_definition(id: ToolId) -> DefinitionView {
    match id {
        ToolId::DnsLookup => DefinitionView {
            id,
            name: "DNS Lookup"@,
            description: "Resolve DNS records for a domain or IP."@,
            availability: ToolAvailability::Runnable,
            fields: seq![field("target"@, "Target"@, "example.com"@)],
        },
        ToolId::WhoisLookup => DefinitionView {
            id,
            name: "Whois Lookup"@,
            description: "Look up domain or IP ownership metadata."@,
            availability: ToolAvailability::Runnable,
            fields: seq![field("target"@, "Target"@, "github.com"@)],
        },
        ToolId::IpInformation => DefinitionView {
            id,
            name: "IP Information"@,
            description: "Summarize ASN, organization, country, and reverse DNS."@,
            availability: ToolAvailability::Runnable,
            fields: seq![field("ip"@, "IP"@, "8.8.8.8"@)],
        },
        ToolId::PortCheck => DefinitionView {
            id,
            name: "Port Check"@,
            description: "Check TCP connectivity to a host and port."@,
            availability: ToolAvailability::Runnable,
            fields: seq![field("host"@, "Host"@, "github.com"@), field("port"@, "Port"@, "443"@)],
        },
        ToolId::TlsInspector => DefinitionView {
            id,
            name: "TLS Inspector"@,
            description: "Inspect certificate and TLS details."@,
            availability: ToolAvailability::Runnable,
            fields: seq![field("target"@, "Target"@, "github.com:443"@)],
        },
        ToolId::Ping => DefinitionView {
            id,
            name: "Ping"@,
            description: "Measure reachability and latency with ping."@,
            availability: ToolAvailability::Runnable,
            fields: seq![field("target"@, "Target"@, "8.8.8.8"@)],
        },
        ToolId::Traceroute => DefinitionView {
            id,
            name: "Traceroute"@,
            description: "Visualize the packet path to a target."@,
            availability: ToolAvailability::Runnable,
            fields: seq![field("target"@, "Target"@, "8.8.8.8"@)],
        },
    }
}

/// The order in which the registry lists the tools.
pub open spec fn tool_order() -> Seq<ToolId> {
    seq![
        ToolId::DnsLookup,
        ToolId::WhoisLookup,
        ToolId::IpInformation,
        ToolId::PortCheck,
        ToolId::TlsInspector,
        ToolId::Ping,
        ToolId::Traceroute,
    ]
}

pub open spec fn standard_definitions() -> Seq<DefinitionView> {
    tool_order().map_values(|id: ToolId| standard_definition(id))
}

/// The position of a tool in the registry.
pub open spec fn tool_index(id: ToolId) -> int {
    match id {
        ToolId::DnsLookup => 0,
        ToolId::WhoisLookup => 1,
        ToolId::IpInformation => 2,
        ToolId::PortCheck => 3,
        ToolId::TlsInspector => 4,
        ToolId::Ping => 5,
        ToolId::Traceroute => 6,
    }
}

/// The tool registry; it always holds the standard definitions.
#[derive(Debug)]
pub struct ToolRegistry {
    definitions: Vec<ToolDefinition>,
}

impl ToolRegistry {
    pub closed spec fn entries(&self) -> Seq<DefinitionView> {
        definition_views(self.definitions@)
    }

    #[verifier::type_invariant]
    spec fn holds_standard_definitions(&self) -> bool {
        definition_views(self.definitions@) == standard_definitions()
    }

    pub fn definitions(&self) -> (r: &[ToolDefinition])
        ensures
            definition_views(r@) == standard_definitions(),
    {
        proof {
            use_type_invariant(self);
        }
        self.definitions.as_slice()
    }

    /// The definition of `id`; every tool has one.
    pub fn definition(&self, id: ToolId) -> (r: Option<&ToolDefinition>)
        ensures
            r matches Some(d) && d@ == standard_definition(id),
    {
        proof {
            use_type_invariant(self);
        }
        let ghost dv = definition_views(self.definitions@);
        assert(dv.len() == 7);
        for i in 0..self.definitions.len()
            invariant
                self.definitions@.len() == 7,
                dv == definition_views(self.definitions@),
                dv == standard_definitions(),
                forall|j: int| 0 <= j < i ==> dv[j].id != id,
        {
            assert(dv[i as int] == self.definitions@[i as int]@);
            assert(standard_definitions()[i as int] == standard_definition(tool_order()[i as int]));
            if self.definitions[i].id == id {
                return Some(&self.definitions[i]);
            }
        }
        assert(standard_definitions()[tool_index(id)] == standard_definition(
            tool_order()[tool_index(id)],
        ));
        assert(dv[tool_index(id)].id == id);
        None
    }
}

impl Clone for ToolRegistry {
    /// Every registry holds the same definitions, so a fresh one is a copy.
    fn clone(&self) -> (r: Self)
        ensures
            r.entries() == self.entries(),
    {
        proof {
            use_type_invariant(self);
        }
        Self::default()
    }
}

impl Default for ToolRegistry {
    fn default() -> (r: Self)
        ensures
            r.entries() == standard_definitions(),
    {
        let dns_fields: &'static [ToolField] = &[
            ToolField { key: "target", label: "Target", placeholder: "example.com" },
        ];
        let whois_fields: &'static [ToolField] = &[
            ToolField { key: "target", label: "Target", placeholder: "github.com" },
        ];
        let ip_fields: &'static [ToolField] = &[
            ToolField { key: "ip", label: "IP", placeholder: "8.8.8.8" },
        ];
        let port_fields: &'static [ToolField] = &[
            ToolField { key: "host", label: "Host", placeholder: "github.com" },
            ToolField { key: "port", label: "Port", placeholder: "443" },
        ];
        let tls_fields: &'static [ToolField] = &[
            ToolField { key: "target", label: "Target", placeholder: "github.com:443" },
        ];
        let ping_fields: &'static [ToolField] = &[
            ToolField { key: "target", label: "Target", placeholder: "8.8.8.8" },
        ];
        let trace_fields: &'static [ToolField] = &[
            ToolField { key: "target", label: "Target", placeholder: "8.8.8.8" },
        ];
        let definitions = vec![
            ToolDefinition {
                id: ToolId::DnsLookup,
                name: "DNS Lookup",
                description: "Resolve DNS records for a domain or IP.",
                availability: ToolAvailability::Runnable,
                fields: dns_fields,
            },
            ToolDefinition {
                id: ToolId::WhoisLookup,
                name: "Whois Lookup",
                description: "Look up domain or IP ownership metadata.",
                availability: ToolAvailability::Runnable,
                fields: whois_fields,
            },
            ToolDefinition {
                id: ToolId::IpInformation,
                name: "IP Information",
                description: "Summarize ASN, organization, country, and reverse DNS.",
                availability: ToolAvailability::Runnable,
                fields: ip_fields,
            },
            ToolDefinition {
                id: ToolId::PortCheck,
                name: "Port Check",
                description: "Check TCP connectivity to a host and port.",
                availability: ToolAvailability::Runnable,
                fields: port_fields,
            },
            ToolDefinition {
                id: ToolId::TlsInspector,
                name: "TLS Inspector",
                description: "Inspect certificate and TLS details.",
                availability: ToolAvailability::Runnable,
                fields: tls_fields,
            },
            ToolDefinition {
                id: ToolId::Ping,
                name: "Ping",
                description: "Measure reachability and latency with ping.",
                availability: ToolAvailability::Runnable,
                fields: ping_fields,
            },
            ToolDefinition {
                id: ToolId::Traceroute,
                name: "Traceroute",
                description: "Visualize the packet path to a target.",
                availability: ToolAvailability::Runnable,
                fields: trace_fields,
            },
        ];
        assert(field_views(dns_fields@) =~= standard_definition(ToolId::DnsLookup).fields);
        assert(field_views(whois_fields@) =~= standard_definition(ToolId::WhoisLookup).fields);
        assert(field_views(ip_fields@) =~= standard_definition(ToolId::IpInformation).fields);
        assert(field_views(port_fields@) =~= standard_definition(ToolId::PortCheck).fields);
        assert(field_views(tls_fields@) =~= standard_definition(ToolId::TlsInspector).fields);
        assert(field_views(ping_fields@) =~= standard_definition(ToolId::Ping).fields);
        assert(field_views(trace_fields@) =~= standard_definition(ToolId::Traceroute).fields);
        assert(definition_views(definitions@) =~= standard_definitions());
        ToolRegistry { definitions }
    }
}

// ---------------------------------------------------------------------------
// Command-line names
// ---------------------------------------------------------------------------
/// The name of a tool on the command line.
pub open spec fn cli_name(id: ToolId) -> Seq<char> {
    match id {
        ToolId::DnsLookup => "dns"@,
        ToolId::WhoisLookup => "whois"@,
        ToolId::IpInformation => "ip-info"@,
        ToolId::PortCheck => "port-check"@,
        ToolId::TlsInspector => "tls"@,
        ToolId::Ping => "ping"@,
        ToolId::Traceroute => "traceroute"@,
    }
}

/// The tool a command-line name selects; most tools also answer to a
/// longer name.
pub open spec fn tool_of_cli_name(name: Seq<char>) -> Option<ToolId> {
    if name == "dns"@ || name == "dns-lookup"@ {
        Some(ToolId::DnsLookup)
    } else if name == "whois"@ || name == "whois-lookup"@ {
        Some(ToolId::WhoisLookup)
    } else if name == "ip-info"@ || name == "ip-information"@ {
        Some(ToolId::IpInformation)
    } else if name == "port-check"@ {
        Some(ToolId::PortCheck)
    } else if name == "tls"@ || name == "tls-inspector"@ {
        Some(ToolId::TlsInspector)
    } else if name == "ping"@ {
        Some(ToolId::Ping)
    } else if name == "traceroute"@ {
        Some(ToolId::Traceroute)
    } else {
        None
    }
}

pub fn tool_id_from_cli_name(name: &str) -> (r: Option<ToolId>)
    ensures
        r == tool_of_cli_name(name@),
{
    if str_eq(name, "dns") || str_eq(name, "dns-lookup") {
        Some(ToolId::DnsLookup)
    } else if str_eq(name, "whois") || str_eq(name, "whois-lookup") {
        Some(ToolId::WhoisLookup)
    } else if str_eq(name, "ip-info") || str_eq(name, "ip-information") {
        Some(ToolId::IpInformation)
    } else if str_eq(name, "port-check") {
        Some(ToolId::PortCheck)
    } else if str_eq(name, "tls") || str_eq(name, "tls-inspector") {
        Some(ToolId::TlsInspector)
    } else if str_eq(name, "ping") {
        Some(ToolId::Ping)
    } else if str_eq(name, "traceroute") {
        Some(ToolId::Traceroute)
    } else {
        None
    }
}

pub fn tool_cli_name(id: ToolId) -> (r: &'static str)
    ensures
        r@ == cli_name(id),
{
    match id {
        ToolId::DnsLookup => "dns",
        ToolId::WhoisLookup => "whois",
        ToolId::IpInformation => "ip-info",
        ToolId::PortCheck => "port-check",
        ToolId::TlsInspector => "tls",
        ToolId::Ping => "ping",
        ToolId::Traceroute => "traceroute",
    }
}

/// The name a tool is shown under on the command line selects that tool.
pub proof fn lemma_cli_name_round_trip(id: ToolId)
    ensures
        tool_of_cli_name(cli_name(id)) == Some(id),
{
    reveal_strlit("dns");
    reveal_strlit("dns-lookup");
    reveal_strlit("whois");
    reveal_strlit("whois-lookup");
    reveal_strlit("ip-info");
    reveal_strlit("ip-information");
    reveal_strlit("port-check");
    reveal_strlit("tls");
    reveal_strlit("tls-inspector");
    reveal_strlit("ping");
    reveal_strlit("traceroute");
    let n = cli_name(id);
    assert(n.len() > 0);
    assert("dns"@[0] == 'd' && "dns-lookup"@[0] == 'd' && "whois"@[0] == 'w' && "whois-lookup"@[0]
        == 'w' && "ip-info"@[0] == 'i' && "ip-information"@[0] == 'i' && "port-check"@[0] == 'p'
        && "tls"@[0] == 't' && "tls-inspector"@[0] == 't' && "ping"@[0] == 'p' && "traceroute"@[0]
        == 't');
}

// ---------------------------------------------------------------------------
// Validating input
// ---------------------------------------------------------------------------
/// The label that messages use for a field key.
pub open spec fn field_label(key: Seq<char>) -> Seq<char> {
    if key == "target"@ {
        "Target"@
    } else if key == "ip"@ {
        "IP"@
    } else if key == "host"@ {
        "Host"@
    } else if key == "port"@ {
        "Port"@
    } else {
        "Field"@
    }
}

/// A value that is absent or only whitespace.
pub open spec fn blank(v: Option<Seq<char>>) -> bool {
    match v {
        Some(s) => trim(s).len() == 0,
        None => true,
    }
}

/// A value, trimmed; nothing when absent.
pub open spec fn trimmed_value(v: Option<Seq<char>>) -> Seq<char> {
    match v {
        Some(s) => trim(s),
        None => Seq::empty(),
    }
}

/// One `... is required.` message per blank field, in field order.
pub open spec fn required_errors(keys: Seq<Seq<char>>, values: Seq<Option<Seq<char>>>) -> Seq<
    Seq<char>,
>
    decreases keys.len(),
{
    if keys.len() == 0 {
        Seq::empty()
    } else {
        let prev = required_errors(keys.drop_last(), values.drop_last());
        if blank(values.last()) {
            prev.push(field_label(keys.last()) + " is required."@)
        } else {
            prev
        }
    }
}

/// An IPv4 or IPv6 address (`str::parse::<IpAddr>`).
pub open spec fn is_ip_text(s: Seq<char>) -> bool {
    ipv4_octets_spec(s) is Some || ipv6_octets_spec(s) is Some
}

/// A TCP port: a number from 1 to 65535.
pub open spec fn valid_port(s: Seq<char>) -> bool {
    match parse_u16_spec(s) {
        Some(p) => p != 0,
        None => false,
    }
}

/// `host:port` with a non-blank host and a valid port, or a non-blank host
/// alone.
pub open spec fn valid_tls_target(t: Seq<char>) -> bool {
    t.len() > 0 && match rsplit_once(t, ':') {
        Some((host, port)) => trim(host).len() > 0 && valid_port(trim(port)),
        None => trim(t).len() > 0,
    }
}

/// The keys of a tool's fields.
pub open spec fn field_keys(id: ToolId) -> Seq<Seq<char>> {
    standard_definition(id).fields.map_values(|f: FieldView| f.key)
}

/// What the input holds under each of the tool's field keys.
pub open spec fn field_values(id: ToolId, values: Seq<(String, String)>) -> Seq<Option<Seq<char>>> {
    field_keys(id).map_values(|k: Seq<char>| input_value(values, k))
}

/// The messages for an input whose field values are `values`: one per
/// blank field, then one for a malformed address, port or TLS target.
pub open spec fn validation_errors(id: ToolId, values: Seq<Option<Seq<char>>>) -> Seq<Seq<char>> {
    let required = required_errors(field_keys(id), values);
    match id {
        ToolId::IpInformation => {
            let ip = trimmed_value(values[0]);
            if ip.len() > 0 && !is_ip_text(ip) {
                required.push("IP must be a valid IPv4 or IPv6 address."@)
            } else {
                required
            }
        },
        ToolId::PortCheck => {
            let port = trimmed_value(values[1]);
            if port.len() > 0 && !valid_port(port) {
                required.push("Port must be a number from 1 to 65535."@)
            } else {
                required
            }
        },
        ToolId::TlsInspector => {
            let target = trimmed_value(values[0]);
            if target.len() > 0 && !valid_tls_target(target) {
                required.push("Target must look like host:port or host."@)
            } else {
                required
            }
        },
        _ => required,
    }
}

fn field_label_of(key: &str) -> (r: &'static str)
    ensures
        r@ == field_label(key@),
{
    if str_eq(key, "target") {
        "Target"
    } else if str_eq(key, "ip") {
        "IP"
    } else if str_eq(key, "host") {
        "Host"
    } else if str_eq(key, "port") {
        "Port"
    } else {
        "Field"
    }
}

/// The trimmed value of `key`, empty when absent.
fn trimmed_input(input: &ToolInput, key: &str) -> (r: Vec<char>)
    ensures
        r@ == trimmed_value(input.lookup(key@)),
{
    match input.get(key) {
        Some(v) => {
            let c = chars_of(v);
            trim_chars(&c)
        },
        None => Vec::new(),
    }
}

pub open spec fn str_views(v: Seq<&str>) -> Seq<Seq<char>> {
    v.map_values(|s: &str| s@)
}

/// The trimmed value of a field that a tool cannot run without.
pub fn required_field(input: &ToolInput, key: &str) -> (r: Result<String, String>)
    ensures
        match r {
            Ok(v) => v@ == trimmed_value(input.lookup(key@)) && v@.len() > 0,
            Err(e) => trimmed_value(input.lookup(key@)).len() == 0 && e@ == field_label(key@)
                + " is required."@,
        },
{
    let value = trimmed_input(input, key);
    if value.len() == 0 {
        Err(concat2(field_label_of(key), " is required."))
    } else {
        Ok(string_of(&value))
    }
}

fn validate_required_fields(input: &ToolInput, fields: &[&str]) -> (r: Vec<String>)
    ensures
        string_views(r@) == required_errors(
            str_views(fields@),
            str_views(fields@).map_values(|k: Seq<char>| input.lookup(k)),
        ),
{
    let ghost keys = str_views(fields@);
    let ghost vals = keys.map_values(|k: Seq<char>| input.lookup(k));
    let mut r: Vec<String> = Vec::new();
    for i in 0..fields.len()
        invariant
            keys == str_views(fields@),
            vals == keys.map_values(|k: Seq<char>| input.lookup(k)),
            string_views(r@) == required_errors(keys.take(i as int), vals.take(i as int)),
    {
        assert(keys.take(i + 1).drop_last() =~= keys.take(i as int));
        assert(vals.take(i + 1).drop_last() =~= vals.take(i as int));
        assert(keys.take(i + 1).last() == fields@[i as int]@);
        assert(vals.take(i + 1).last() == input.lookup(fields@[i as int]@));
        let value = trimmed_input(input, fields[i]);
        if value.len() == 0 {
            let msg = concat2(field_label_of(fields[i]), " is required.");
            r.push(msg);
            assert(string_views(r@) =~= required_errors(keys.take(i + 1), vals.take(i + 1)));
        } else {
            assert(string_views(r@) =~= required_errors(keys.take(i + 1), vals.take(i + 1)));
        }
    }
    assert(keys.take(fields.len() as int) =~= keys);
    assert(vals.take(fields.len() as int) =~= vals);
    r
}

fn is_valid_port(port: &[char]) -> (r: bool)
    ensures
        r == valid_port(port@),
{
    match parse_u16(port) {
        Some(p) => p != 0,
        None => false,
    }
}

fn is_valid_tls_target(target: &[char]) -> (r: bool)
    ensures
        r == valid_tls_target(target@),
{
    if target.len() == 0 {
        return false;
    }
    match rsplit_once_char(target, ':') {
        Some((host, port)) => {
            let h = trim_chars(&host);
            let p = trim_chars(&port);
            h.len() > 0 && is_valid_port(&p)
        },
        None => {
            let t = trim_chars(target);
            t.len() > 0
        },
    }
}

fn is_ip_address(s: &[char]) -> (r: bool)
    ensures
        r == is_ip_text(s@),
{
    parse_ipv4_chars(s).is_some() || parse_ipv6_chars(s).is_some()
}

pub fn validate_tool_input(id: ToolId, input: &ToolInput) -> (r: Vec<String>)
    ensures
        string_views(r@) == validation_errors(id, field_values(id, input.values@)),
{
    let ghost vals = field_values(id, input.values@);
    proof {
        reveal_strlit("target");
        reveal_strlit("ip");
        reveal_strlit("host");
        reveal_strlit("port");
    }
    match id {
        ToolId::IpInformation => {
            let fields: &[&str] = &["ip"];
            let mut errors = validate_required_fields(input, fields);
            assert(str_views(fields@) =~= field_keys(id));
            assert(str_views(fields@).map_values(|k: Seq<char>| input.lookup(k)) =~= vals);
            let ip = trimmed_input(input, "ip");
            if ip.len() > 0 && !is_ip_address(&ip) {
                errors.push(owned("IP must be a valid IPv4 or IPv6 address."));
            }
            assert(string_views(errors@) =~= validation_errors(id, vals));
            errors
        },
        ToolId::PortCheck => {
            let fields: &[&str] = &["host", "port"];
            let mut errors = validate_required_fields(input, fields);
            assert(str_views(fields@) =~= field_keys(id));
            assert(str_views(fields@).map_values(|k: Seq<char>| input.lookup(k)) =~= vals);
            let port = trimmed_input(input, "port");
            if port.len() > 0 && !is_valid_port(&port) {
                errors.push(owned("Port must be a number from 1 to 65535."));
            }
            assert(string_views(errors@) =~= validation_errors(id, vals));
            errors
        },
        ToolId::TlsInspector => {
            let fields: &[&str] = &["target"];
            let mut errors = validate_required_fields(input, fields);
            assert(str_views(fields@) =~= field_keys(id));
            assert(str_views(fields@).map_values(|k: Seq<char>| input.lookup(k)) =~= vals);
            let target = trimmed_input(input, "target");
            if target.len() > 0 && !is_valid_tls_target(&target) {
                errors.push(owned("Target must look like host:port or host."));
            }
            assert(string_views(errors@) =~= validation_errors(id, vals));
            errors
        },
        _ => {
            let fields: &[&str] = &["target"];
            let errors = validate_required_fields(input, fields);
            assert(str_views(fields@) =~= field_keys(id));
            assert(str_views(fields@).map_values(|k: Seq<char>| input.lookup(k)) =~= vals);
            errors
        },
    }
}

// ---------------------------------------------------------------------------
// Command-line input
// ---------------------------------------------------------------------------
/// `<key>` for each field.
pub open spec fn bracketed_keys(fields: Seq<FieldView>) -> Seq<Seq<char>> {
    fields.map_values(|f: FieldView| "<"@ + f.key + ">"@)
}

/// The arguments a tool expects, as shown in usage lines.
pub open spec fn usage_args(fields: Seq<FieldView>) -> Seq<char> {
    join(bracketed_keys(fields), " "@)
}

/// The message for a wrong number of arguments.
pub open spec fn usage_error(id: ToolId) -> Seq<char> {
    "Usage: lazyifconfig tools "@ + cli_name(id) + " "@ + usage_args(standard_definition(id).fields)
}

/// Each argument as a present value.
pub open spec fn present_values(args: Seq<&str>) -> Seq<Option<Seq<char>>> {
    args.map_values(|a: &str| Some(a@))
}

/// The field keys of every tool are distinct.
proof fn lemma_field_keys_distinct(id: ToolId)
    ensures
        forall|i: int, j: int|
            0 <= i < j < field_keys(id).len() ==> field_keys(id)[i] != field_keys(id)[j],
{
    reveal_strlit("host");
    reveal_strlit("port");
    if id == ToolId::PortCheck {
        assert(field_keys(id)[0] == "host"@);
        assert(field_keys(id)[1] == "port"@);
        assert("host"@[0] != "port"@[0]);
    }
}

fn bracketed_args(fields: &[ToolField]) -> (r: String)
    ensures
        r@ == usage_args(field_views(fields@)),
{
    let mut parts: Vec<String> = Vec::new();
    for i in 0..fields.len()
        invariant
            string_views(parts@) == bracketed_keys(field_views(fields@.take(i as int))),
    {
        let part = crate::text::concat3("<", fields[i].key, ">");
        let ghost before = parts@;
        parts.push(part);
        proof {
            lemma_string_views_push(before, part);
            assert(field_views(fields@.take(i + 1)) =~= field_views(fields@.take(i as int)).push(
                fields@[i as int]@,
            ));
            assert(bracketed_keys(field_views(fields@.take(i + 1))) =~= bracketed_keys(
                field_views(fields@.take(i as int)),
            ).push("<"@ + fields@[i as int].key@ + ">"@));
        }
    }
    assert(fields@.take(fields.len() as int) =~= fields@);
    join_strings(&parts, " ")
}

pub fn tool_input_from_cli_args(id: ToolId, args: &[&str]) -> (r: Result<ToolInput, String>)
    ensures
        args.len() != standard_definition(id).fields.len() ==> (r matches Err(e) && e@
            == usage_error(id)),
        args.len() == standard_definition(id).fields.len() ==> {
            let errors = validation_errors(id, present_values(args@));
            &&& errors.len() == 0 ==> (r matches Ok(input) && input.wf() && field_values(
                id,
                input.values@,
            ) == present_values(args@) && forall|k: Seq<char>|
                !field_keys(id).contains(k) ==> #[trigger] input.lookup(k) is None)
            &&& errors.len() > 0 ==> (r matches Err(e) && e@ == join(errors, " "@))
        },
{
    let registry = ToolRegistry::default();
    let definition = match registry.definition(id) {
        Some(d) => d,
        None => {
            return Err(owned("Unknown tool id."));
        },
    };
    let fields = definition.fields;
    if args.len() != fields.len() {
        let mut message = owned("Usage: lazyifconfig tools ");
        push_str(&mut message, tool_cli_name(id));
        push_str(&mut message, " ");
        let usage = bracketed_args(fields);
        push_str(&mut message, usage.as_str());
        return Err(message);
    }
    let ghost keys = field_keys(id);
    assert(keys =~= field_views(fields@).map_values(|f: FieldView| f.key));
    proof {
        lemma_field_keys_distinct(id);
    }
    let mut input = ToolInput::new();
    for i in 0..fields.len()
        invariant
            fields.len() == args.len(),
            keys == field_views(fields@).map_values(|f: FieldView| f.key),
            keys.len() == fields.len(),
            forall|a: int, b: int| 0 <= a < b < keys.len() ==> keys[a] != keys[b],
            input.wf(),
            forall|j: int| 0 <= j < i ==> input.lookup(keys[j]) == Some(args@[j]@),
            forall|k: Seq<char>|
                (forall|j: int| 0 <= j < i ==> k != keys[j]) ==> #[trigger] input.lookup(k) is None,
    {
        assert(keys[i as int] == fields@[i as int].key@);
        input.insert(owned(fields[i].key), owned(args[i]));
        assert forall|k: Seq<char>| (forall|j: int| 0 <= j < i + 1 ==> k != keys[j]) implies #[trigger] input.lookup(k) is None by {
            assert(k != keys[i as int]);
        }
    }
    let ghost vals = present_values(args@);
    assert(field_values(id, input.values@) =~= vals);
    assert forall|k: Seq<char>| !field_keys(id).contains(k) implies #[trigger] input.lookup(k) is None by {
        assert forall|j: int| 0 <= j < fields.len() implies k != keys[j] by {
            if k == keys[j] {
                assert(field_keys(id).contains(k));
            }
        }
    }
    let errors = validate_tool_input(id, &input);
    if errors.len() == 0 {
        Ok(input)
    } else {
        Err(join_strings(&errors, " "))
    }
}

// ---------------------------------------------------------------------------
// Plain-text results and usage
// ---------------------------------------------------------------------------
/// Each section as a blank line, its label in brackets and its lines.
pub open spec fn section_lines(sections: Seq<SectionView>) -> Seq<Seq<char>>
    decreases sections.len(),
{
    if sections.len() == 0 {
        Seq::empty()
    } else {
        section_lines(sections.drop_last()) + seq![Seq::empty(), "["@ + sections.last().label + "]"@]
            + sections.last().lines
    }
}

/// The lines of a result: its title, its sections, and its raw output
/// under `[Raw Output]` when that is not blank.
pub open spec fn plaintext_lines(r: ResultView) -> Seq<Seq<char>> {
    seq![r.title] + section_lines(r.sections) + if trim(r.raw_output).len() > 0 {
        seq![Seq::empty(), "[Raw Output]"@, r.raw_output]
    } else {
        Seq::empty()
    }
}

pub fn format_tool_result_plaintext(result: &ToolResult) -> (r: String)
    ensures
        r@ == join(plaintext_lines(result@), "\n"@),
{
    let mut lines: Vec<String> = Vec::new();
    lines.push(result.title.clone());
    let ghost sv = section_views(result.sections@);
    for i in 0..result.sections.len()
        invariant
            sv == section_views(result.sections@),
            string_views(lines@) == seq![result.title@] + section_lines(sv.take(i as int)),
    {
        assert(sv.take(i + 1).drop_last() =~= sv.take(i as int));
        assert(sv.take(i + 1).last() == result.sections@[i as int]@);
        let section = &result.sections[i];
        let ghost start = lines@;
        let blank_line = String::new();
        lines.push(blank_line);
        let ghost mid = lines@;
        let label_line = crate::text::concat3("[", section.label.as_str(), "]");
        lines.push(label_line);
        let ghost before = lines@;
        proof {
            lemma_string_views_push(start, blank_line);
            lemma_string_views_push(mid, label_line);
            assert(string_views(before) =~= string_views(start) + seq![
                Seq::empty(),
                "["@ + section.label@ + "]"@,
            ]);
        }
        for j in 0..section.lines.len()
            invariant
                string_views(lines@) == string_views(before) + string_views(section.lines@).take(
                    j as int,
                ),
        {
            let ghost prev = lines@;
            lines.push(section.lines[j].clone());
            proof {
                lemma_string_views_push(prev, section.lines@[j as int]);
            }
            assert(string_views(lines@) =~= string_views(before) + string_views(
                section.lines@,
            ).take(j + 1));
        }
        assert(string_views(section.lines@).take(section.lines.len() as int) =~= string_views(
            section.lines@,
        ));
        assert(string_views(lines@) =~= seq![result.title@] + section_lines(sv.take(i + 1)));
    }
    assert(sv.take(sv.len() as int) =~= sv);
    let raw = chars_of(result.raw_output.as_str());
    let raw_trimmed = trim_chars(&raw);
    if raw_trimmed.len() > 0 {
        lines.push(String::new());
        lines.push(owned("[Raw Output]"));
        lines.push(result.raw_output.clone());
    }
    assert(string_views(lines@) =~= plaintext_lines(result@));
    join_strings(&lines, "\n")
}

/// One usage line per tool: two spaces, its name padded to twelve
/// characters, its arguments and its description.
pub open spec fn usage_line(d: DefinitionView) -> Seq<char> {
    "  "@ + pad_right(cli_name(d.id), 12) + " "@ + usage_args(d.fields) + " "@ + d.description
}

pub open spec fn cli_usage() -> Seq<char> {
    join(
        seq!["Usage: lazyifconfig tools <tool> [args]"@, Seq::empty(), "Available tools:"@]
            + standard_definitions().map_values(|d: DefinitionView| usage_line(d)),
        "\n"@,
    )
}

pub fn tools_cli_usage() -> (r: String)
    ensures
        r@ == cli_usage(),
{
    let registry = ToolRegistry::default();
    let mut lines: Vec<String> = Vec::new();
    lines.push(owned("Usage: lazyifconfig tools <tool> [args]"));
    lines.push(String::new());
    lines.push(owned("Available tools:"));
    let definitions = registry.definitions();
    let ghost dv = definition_views(definitions@);
    let ghost head = string_views(lines@);
    for i in 0..definitions.len()
        invariant
            dv == definition_views(definitions@),
            string_views(lines@) == head + dv.take(i as int).map_values(
                |d: DefinitionView| usage_line(d),
            ),
    {
        let d = &definitions[i];
        assert(dv[i as int] == d@);
        let ghost prev = lines@;
        let mut line = owned("  ");
        let name = pad_right_str(tool_cli_name(d.id), 12);
        push_str(&mut line, name.as_str());
        push_str(&mut line, " ");
        let args = bracketed_args(d.fields);
        push_str(&mut line, args.as_str());
        push_str(&mut line, " ");
        push_str(&mut line, d.description);
        lines.push(line);
        proof {
            lemma_string_views_push(prev, line);
        }
        assert(string_views(lines@) =~= head + dv.take(i + 1).map_values(
            |d: DefinitionView| usage_line(d),
        ));
    }
    assert(dv.take(dv.len() as int) =~= dv);
    assert(string_views(lines@) =~= seq![
        "Usage: lazyifconfig tools <tool> [args]"@,
        Seq::empty(),
        "Available tools:"@,
    ] + standard_definitions().map_values(|d: DefinitionView| usage_line(d)));
    join_strings(&lines, "\n")
}

// ---------------------------------------------------------------------------
// Laws
// ---------------------------------------------------------------------------
proof fn lemma_no_required_errors(keys: Seq<Seq<char>>, values: Seq<Option<Seq<char>>>)
    requires
        keys.len() == values.len(),
        required_errors(keys, values).len() == 0,
    ensures
        forall|i: int| 0 <= i < values.len() ==> !blank(#[trigger] values[i]),
    decreases keys.len(),
{
    if keys.len() > 0 {
        let prev = required_errors(keys.drop_last(), values.drop_last());
        if blank(values.last()) {
            assert(required_errors(keys, values).len() == prev.len() + 1);
        }
        lemma_no_required_errors(keys.drop_last(), values.drop_last());
        assert forall|i: int| 0 <= i < values.len() implies !blank(#[trigger] values[i]) by {
            if i < values.len() - 1 {
                assert(values.drop_last()[i] == values[i]);
            }
        }
    }
}

/// An input that passes validation has a non-blank value for every field
/// of its tool.
pub proof fn lemma_valid_input_has_every_field(id: ToolId, values: Seq<Option<Seq<char>>>)
    requires
        values.len() == field_keys(id).len(),
        validation_errors(id, values).len() == 0,
    ensures
        forall|i: int| 0 <= i < values.len() ==> !blank(#[trigger] values[i]),
{
    let required = required_errors(field_keys(id), values);
    assert(validation_errors(id, values).len() >= required.len());
    lemma_no_required_errors(field_keys(id), values);
}

/// Whatever `tool_input_from_cli_args` accepts passes validation again.
pub proof fn lemma_accepted_cli_input_is_valid(id: ToolId, args: Seq<&str>, input: ToolInput)
    requires
        field_values(id, input.values@) == present_values(args),
        validation_errors(id, present_values(args)).len() == 0,
    ensures
        validation_errors(id, field_values(id, input.values@)).len() == 0,
{
}

} // verus!
