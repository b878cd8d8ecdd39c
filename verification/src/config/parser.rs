//! Reading the configuration from a Nix attribute set.
//!
//! The Nix text is parsed by `rnix`; its syntax tree is flattened into the
//! nodes that `rowan` walks in preorder, each with its kind, its text and the
//! size of its subtree.  The lookups and the defaults of the configuration are
//! decided here, over those nodes.

use vstd::prelude::*;

use super::structure::{Config, FeaturesConfig, ProxyConfig, WebConfig};
use crate::text::{chars_eq, chars_of, parse_u16, parsed_u16, string_of, trim_both, trim_matches};

verus! {

/// The kinds of syntax nodes the lookups tell apart.
#[derive(PartialEq, Eq, Structural)]
pub enum NixKind {
    AttrpathValue,
    Attrpath,
    Str,
    Literal,
    Ident,
    AttrSet,
    Other,
}

/// A syntax node: its kind, its text and the number of nodes in its subtree
/// (itself included).
pub struct NixNode {
    pub kind: NixKind,
    pub text: String,
    pub size: usize,
}

/// The nodes of a syntax tree in preorder: a node's subtree is the node and the
/// `size - 1` nodes after it.
pub struct NixTree {
    pub nodes: Vec<NixNode>,
}

/// A syntax node as the lookups see it.
pub struct NixNodeView {
    pub kind: NixKind,
    pub text: Seq<char>,
    pub size: usize,
}

impl View for NixTree {
    type V = Seq<NixNodeView>;

    open spec fn view(&self) -> Seq<NixNodeView> {
        Seq::new(
            self.nodes@.len(),
            |i: int|
                NixNodeView {
                    kind: self.nodes@[i].kind,
                    text: self.nodes@[i].text@,
                    size: self.nodes@[i].size,
                },
        )
    }
}

/// The syntax tree that `rnix::Root::parse` builds for a Nix text, flattened:
/// for each node, in the preorder of rowan's `descendants`, the name of its
/// `SyntaxKind`, its text and the number of nodes in its subtree.
pub uninterp spec fn nix_syntax(source: Seq<char>) -> Seq<(Seq<char>, Seq<char>, usize)>;

/// Parses Nix text with `rnix::Root::parse` and flattens the syntax tree (see
/// `nix_syntax`); the result is named, not stated.
#[verifier::external_body]
pub(crate) fn parse_nix(source: &str) -> (nodes: Vec<(String, String, usize)>)
    ensures
        nodes.deep_view() == nix_syntax(source@),
{
    let mut nodes = Vec::new();
    for node in rnix::Root::parse(source).syntax().descendants() {
        nodes.push((format!("{:?}", node.kind()), node.text().to_string(), node.descendants().count()));
    }
    nodes
}

/// The kind of a node, from the name of its `SyntaxKind`.
pub open spec fn kind_named(name: Seq<char>) -> NixKind {
    if name == "NODE_ATTRPATH_VALUE"@ {
        NixKind::AttrpathValue
    } else if name == "NODE_ATTRPATH"@ {
        NixKind::Attrpath
    } else if name == "NODE_STRING"@ {
        NixKind::Str
    } else if name == "NODE_LITERAL"@ {
        NixKind::Literal
    } else if name == "NODE_IDENT"@ {
        NixKind::Ident
    } else if name == "NODE_ATTR_SET"@ {
        NixKind::AttrSet
    } else {
        NixKind::Other
    }
}

/// The nodes of a flattened syntax tree, as the lookups see them.
pub open spec fn syntax_view(raw: Seq<(Seq<char>, Seq<char>, usize)>) -> Seq<NixNodeView> {
    Seq::new(
        raw.len(),
        |i: int| NixNodeView { kind: kind_named(raw[i].0), text: raw[i].1, size: raw[i].2 },
    )
}

/// The end (exclusive) of the subtree of node `i`: `size` nodes on, at least
/// one, and no further than the last node.
pub open spec fn node_end(nodes: Seq<NixNodeView>, i: int) -> int {
    let size = if nodes[i].size == 0 {
        1
    } else {
        nodes[i].size as int
    };
    if i + size > nodes.len() {
        nodes.len() as int
    } else {
        i + size
    }
}

/// Scanning the children of a binding from node `c` (each child's subtree
/// skipped to reach the next) up to `stop`: the value bound once its path is
/// `name`, that is a string's text without its quotes, a literal's text, or an
/// identifier `true` or `false`.
pub open spec fn binding_value(
    nodes: Seq<NixNodeView>,
    c: int,
    stop: int,
    name: Seq<char>,
    found: bool,
) -> Option<Seq<char>>
    decreases nodes.len() - c,
{
    if c < 0 || c >= stop || stop > nodes.len() {
        None
    } else {
        proof {
            assert(node_end(nodes, c) > c);
        }
        let n = nodes[c];
        let found = found || (n.kind == NixKind::Attrpath && n.text == name);
        if found && n.kind == NixKind::Str {
            Some(trim_both(n.text, '"'))
        } else if found && n.kind == NixKind::Literal {
            Some(n.text)
        } else if found && n.kind == NixKind::Ident && (n.text == "true"@ || n.text == "false"@) {
            Some(n.text)
        } else {
            binding_value(nodes, node_end(nodes, c), stop, name, found)
        }
    }
}

/// The first value bound to `name` by a binding among nodes `d..stop`.
pub open spec fn first_value(nodes: Seq<NixNodeView>, d: int, stop: int, name: Seq<char>) -> Option<
    Seq<char>,
>
    decreases stop - d,
{
    if d < 0 || d >= stop || stop > nodes.len() {
        None
    } else if nodes[d].kind == NixKind::AttrpathValue && binding_value(
        nodes,
        d + 1,
        node_end(nodes, d),
        name,
        false,
    ) is Some {
        binding_value(nodes, d + 1, node_end(nodes, d), name, false)
    } else {
        first_value(nodes, d + 1, stop, name)
    }
}

/// The value bound to `name` anywhere in the subtree of node `node`.
pub open spec fn attr_value(nodes: Seq<NixNodeView>, node: int, name: Seq<char>) -> Option<
    Seq<char>,
> {
    if 0 <= node < nodes.len() {
        first_value(nodes, node, node_end(nodes, node), name)
    } else {
        None
    }
}

/// Scanning the children of a binding from node `c` up to `stop`: the attribute
/// set bound once the path is `name`.
pub open spec fn binding_set(
    nodes: Seq<NixNodeView>,
    c: int,
    stop: int,
    name: Seq<char>,
    found: bool,
) -> Option<int>
    decreases nodes.len() - c,
{
    if c < 0 || c >= stop || stop > nodes.len() {
        None
    } else {
        proof {
            assert(node_end(nodes, c) > c);
        }
        let n = nodes[c];
        let found = found || (n.kind == NixKind::Attrpath && n.text == name);
        if found && n.kind == NixKind::AttrSet {
            Some(c)
        } else {
            binding_set(nodes, node_end(nodes, c), stop, name, found)
        }
    }
}

/// The first attribute set bound to `name` by a binding among nodes `d..stop`.
pub open spec fn first_set(nodes: Seq<NixNodeView>, d: int, stop: int, name: Seq<char>) -> Option<
    int,
>
    decreases stop - d,
{
    if d < 0 || d >= stop || stop > nodes.len() {
        None
    } else if nodes[d].kind == NixKind::AttrpathValue && binding_set(
        nodes,
        d + 1,
        node_end(nodes, d),
        name,
        false,
    ) is Some {
        binding_set(nodes, d + 1, node_end(nodes, d), name, false)
    } else {
        first_set(nodes, d + 1, stop, name)
    }
}

proof fn lemma_binding_set_range(
    nodes: Seq<NixNodeView>,
    c: int,
    stop: int,
    name: Seq<char>,
    found: bool,
)
    ensures
        binding_set(nodes, c, stop, name, found) matches Some(k) ==> 0 <= k < nodes.len(),
    decreases nodes.len() - c,
{
    if !(c < 0 || c >= stop || stop > nodes.len()) {
        let n = nodes[c];
        let found2 = found || (n.kind == NixKind::Attrpath && n.text == name);
        if !(found2 && n.kind == NixKind::AttrSet) {
            lemma_binding_set_range(nodes, node_end(nodes, c), stop, name, found2);
        }
    }
}

proof fn lemma_first_set_range(nodes: Seq<NixNodeView>, d: int, stop: int, name: Seq<char>)
    ensures
        first_set(nodes, d, stop, name) matches Some(k) ==> 0 <= k < nodes.len(),
    decreases stop - d,
{
    if !(d < 0 || d >= stop || stop > nodes.len()) {
        lemma_binding_set_range(nodes, d + 1, node_end(nodes, d), name, false);
        lemma_first_set_range(nodes, d + 1, stop, name);
    }
}

/// The attribute set bound to `name` anywhere in the subtree of node `node`.
pub open spec fn attr_set(nodes: Seq<NixNodeView>, node: int, name: Seq<char>) -> Option<int> {
    if 0 <= node < nodes.len() {
        first_set(nodes, node, node_end(nodes, node), name)
    } else {
        None
    }
}

/// The value of `key` in the attribute set bound to `section`, both looked up
/// from the root node.
pub open spec fn section_value(nodes: Seq<NixNodeView>, section: Seq<char>, key: Seq<char>) -> Option<
    Seq<char>,
> {
    match attr_set(nodes, 0, section) {
        Some(set) => attr_value(nodes, set, key),
        None => None,
    }
}

/// A text setting: its value, or the default.
pub open spec fn text_setting(value: Option<Seq<char>>, default: Seq<char>) -> Seq<char> {
    match value {
        Some(v) => v,
        None => default,
    }
}

/// A port setting: its value when it parses as a `u16`, or the default.
pub open spec fn port_setting(value: Option<Seq<char>>, default: u16) -> u16 {
    match value {
        Some(v) => match parsed_u16(v) {
            Some(p) => p,
            None => default,
        },
        None => default,
    }
}

/// A switch: on when its value is `true`, off for any other value, the
/// default when it is not set.
pub open spec fn flag_setting(value: Option<Seq<char>>, default: bool) -> bool {
    match value {
        Some(v) => v == "true"@,
        None => default,
    }
}

/// Whether `config` is the configuration that the nodes of a syntax tree give:
/// `proxy.target` (default `http://localhost`), `proxy.port` (80),
/// `proxy.path` (`/`), `web.port` (9595), `web.hostname` (`127.0.0.1`) and
/// `features.log` (on).
pub open spec fn config_of(nodes: Seq<NixNodeView>, config: Config) -> bool {
    &&& config.proxy_config.target@ == text_setting(
        section_value(nodes, "proxy"@, "target"@),
        "http://localhost"@,
    )
    &&& config.proxy_config.port == port_setting(section_value(nodes, "proxy"@, "port"@), 80)
    &&& config.proxy_config.path@ == text_setting(section_value(nodes, "proxy"@, "path"@), "/"@)
    &&& config.web_config.port == port_setting(section_value(nodes, "web"@, "port"@), 9595)
    &&& config.web_config.hostname@ == text_setting(
        section_value(nodes, "web"@, "hostname"@),
        "127.0.0.1"@,
    )
    &&& config.features_config.log == flag_setting(
        section_value(nodes, "features"@, "log"@),
        true,
    )
}

proof fn lemma_no_binding_no_set(nodes: Seq<NixNodeView>, d: int, stop: int, name: Seq<char>)
    requires
        forall|i: int| 0 <= i < nodes.len() ==> #[trigger] nodes[i].kind != NixKind::AttrpathValue,
    ensures
        first_set(nodes, d, stop, name) is None,
    decreases stop - d,
{
    if !(d < 0 || d >= stop || stop > nodes.len()) {
        assert(nodes[d].kind != NixKind::AttrpathValue);
        lemma_no_binding_no_set(nodes, d + 1, stop, name);
    }
}

/// A Nix text without bindings gives the default configuration: target
/// `http://localhost`, port 80, path `/`, listening on `127.0.0.1:9595`, with
/// logging on.
pub proof fn law_no_bindings_give_defaults(nodes: Seq<NixNodeView>, config: Config)
    requires
        forall|i: int| 0 <= i < nodes.len() ==> #[trigger] nodes[i].kind != NixKind::AttrpathValue,
    ensures
        config_of(nodes, config) <==> {
            &&& config.proxy_config.target@ == "http://localhost"@
            &&& config.proxy_config.port == 80
            &&& config.proxy_config.path@ == "/"@
            &&& config.web_config.port == 9595
            &&& config.web_config.hostname@ == "127.0.0.1"@
            &&& config.features_config.log
        },
{
    if nodes.len() > 0 {
        lemma_no_binding_no_set(nodes, 0, node_end(nodes, 0), "proxy"@);
        lemma_no_binding_no_set(nodes, 0, node_end(nodes, 0), "web"@);
        lemma_no_binding_no_set(nodes, 0, node_end(nodes, 0), "features"@);
    }
}

/// Whether the node at `d` is a binding whose value for `name` is `v`.
pub open spec fn binds_value(nodes: Seq<NixNodeView>, d: int, name: Seq<char>, v: Seq<char>) -> bool {
    &&& 0 <= d < nodes.len()
    &&& nodes[d].kind == NixKind::AttrpathValue
    &&& binding_value(nodes, d + 1, node_end(nodes, d), name, false) == Some(v)
}

/// Whether the node at `d` is a binding that gives a value for `name`.
pub open spec fn binds_name(nodes: Seq<NixNodeView>, d: int, name: Seq<char>) -> bool {
    &&& 0 <= d < nodes.len()
    &&& nodes[d].kind == NixKind::AttrpathValue
    &&& binding_value(nodes, d + 1, node_end(nodes, d), name, false) is Some
}

proof fn lemma_first_value_witness(nodes: Seq<NixNodeView>, d: int, stop: int, name: Seq<char>)
    requires
        0 <= d,
        stop <= nodes.len(),
    ensures
        first_value(nodes, d, stop, name) matches Some(v) ==> exists|e: int|
            d <= e < stop && #[trigger] binds_value(nodes, e, name, v),
        (forall|e: int| d <= e < stop ==> !#[trigger] binds_name(nodes, e, name)) ==> first_value(
            nodes,
            d,
            stop,
            name,
        ) is None,
    decreases stop - d,
{
    if d < stop {
        lemma_first_value_witness(nodes, d + 1, stop, name);
        if let Some(v) = first_value(nodes, d, stop, name) {
            if nodes[d].kind == NixKind::AttrpathValue && binding_value(
                nodes,
                d + 1,
                node_end(nodes, d),
                name,
                false,
            ) is Some {
                assert(binds_value(nodes, d, name, v));
            }
        }
        if forall|e: int| d <= e < stop ==> !#[trigger] binds_name(nodes, e, name) {
            assert(!binds_name(nodes, d, name));
        }
    }
}

/// The value found for a key under a node comes from a binding inside that
/// node's subtree; when no binding there gives the key a value, none is found,
/// whatever the nodes after the subtree bind.
pub proof fn law_value_from_own_subtree(nodes: Seq<NixNodeView>, n: int, name: Seq<char>)
    requires
        0 <= n < nodes.len(),
    ensures
        attr_value(nodes, n, name) matches Some(v) ==> exists|d: int|
            n <= d < node_end(nodes, n) && #[trigger] binds_value(nodes, d, name, v),
        (forall|d: int| n <= d < node_end(nodes, n) ==> !#[trigger] binds_name(nodes, d, name))
            ==> attr_value(nodes, n, name) is None,
{
    lemma_first_value_witness(nodes, n, node_end(nodes, n), name);
}

/// Whether the node at `d` is a binding of `name` to the attribute set at `k`.
pub open spec fn binds_set(nodes: Seq<NixNodeView>, d: int, name: Seq<char>, k: int) -> bool {
    &&& 0 <= d < nodes.len()
    &&& nodes[d].kind == NixKind::AttrpathValue
    &&& binding_set(nodes, d + 1, node_end(nodes, d), name, false) == Some(k)
}

proof fn lemma_first_set_witness(nodes: Seq<NixNodeView>, d: int, stop: int, name: Seq<char>)
    requires
        0 <= d,
        stop <= nodes.len(),
    ensures
        first_set(nodes, d, stop, name) matches Some(k) ==> exists|e: int|
            d <= e < stop && #[trigger] binds_set(nodes, e, name, k),
    decreases stop - d,
{
    if d < stop {
        lemma_first_set_witness(nodes, d + 1, stop, name);
        if let Some(k) = first_set(nodes, d, stop, name) {
            if nodes[d].kind == NixKind::AttrpathValue && binding_set(
                nodes,
                d + 1,
                node_end(nodes, d),
                name,
                false,
            ) is Some {
                assert(binds_set(nodes, d, name, k));
            }
        }
    }
}

/// The attribute set found for a name under a node is bound by a binding
/// inside that node's subtree.
pub proof fn law_set_from_own_subtree(nodes: Seq<NixNodeView>, n: int, name: Seq<char>)
    requires
        0 <= n < nodes.len(),
    ensures
        attr_set(nodes, n, name) matches Some(k) ==> exists|d: int|
            n <= d < node_end(nodes, n) && #[trigger] binds_set(nodes, d, name, k),
{
    lemma_first_set_witness(nodes, n, node_end(nodes, n), name);
}

/// A port that the `proxy` section does not set is 80, whatever other sections
/// of the file set.
pub proof fn law_unset_proxy_port_is_default(nodes: Seq<NixNodeView>, config: Config, set: int)
    requires
        config_of(nodes, config),
        attr_set(nodes, 0, "proxy"@) == Some(set),
        0 <= set < nodes.len(),
        forall|d: int| set <= d < node_end(nodes, set) ==> !#[trigger] binds_name(nodes, d, "port"@),
    ensures
        config.proxy_config.port == 80,
{
    law_value_from_own_subtree(nodes, set, "port"@);
}

/// The kind of a node from the name of its `SyntaxKind` (see `kind_named`).
pub fn kind_of_name(name: &str) -> (k: NixKind)
    ensures
        k == kind_named(name@),
{
    let n = chars_of(name);
    if chars_eq(&n, &chars_of("NODE_ATTRPATH_VALUE")) {
        NixKind::AttrpathValue
    } else if chars_eq(&n, &chars_of("NODE_ATTRPATH")) {
        NixKind::Attrpath
    } else if chars_eq(&n, &chars_of("NODE_STRING")) {
        NixKind::Str
    } else if chars_eq(&n, &chars_of("NODE_LITERAL")) {
        NixKind::Literal
    } else if chars_eq(&n, &chars_of("NODE_IDENT")) {
        NixKind::Ident
    } else if chars_eq(&n, &chars_of("NODE_ATTR_SET")) {
        NixKind::AttrSet
    } else {
        NixKind::Other
    }
}

fn kind_eq(a: &NixKind, b: &NixKind) -> (r: bool)
    ensures
        r == (*a == *b),
{
    match (a, b) {
        (NixKind::AttrpathValue, NixKind::AttrpathValue) => true,
        (NixKind::Attrpath, NixKind::Attrpath) => true,
        (NixKind::Str, NixKind::Str) => true,
        (NixKind::Literal, NixKind::Literal) => true,
        (NixKind::Ident, NixKind::Ident) => true,
        (NixKind::AttrSet, NixKind::AttrSet) => true,
        (NixKind::Other, NixKind::Other) => true,
        _ => false,
    }
}

impl NixTree {
    /// The tree of a flattened syntax tree (see `syntax_view`).
    pub fn from_syntax(raw: Vec<(String, String, usize)>) -> (tree: NixTree)
        ensures
            tree@ == syntax_view(raw.deep_view()),
    {
        let ghost rv = raw.deep_view();
        let mut nodes: Vec<NixNode> = Vec::new();
        let mut i: usize = 0;
        while i < raw.len()
            invariant
                0 <= i <= raw.len(),
                rv == raw.deep_view(),
                nodes@.len() == i,
                forall|j: int|
                    0 <= j < i ==> {
                        &&& (#[trigger] nodes@[j]).kind == kind_named(rv[j].0)
                        &&& nodes@[j].text@ == rv[j].1
                        &&& nodes@[j].size == rv[j].2
                    },
            decreases raw.len() - i,
        {
            let entry = &raw[i];
            proof {
                assert(rv[i as int] == (entry.0@, entry.1@, entry.2));
            }
            let kind = kind_of_name(entry.0.as_str());
            let text = string_of(&chars_of(entry.1.as_str()));
            nodes.push(NixNode { kind, text, size: entry.2 });
            i = i + 1;
        }
        let tree = NixTree { nodes };
        proof {
            assert(tree@ =~= syntax_view(rv));
        }
        tree
    }

    /// Parses Nix text into its tree of syntax nodes.
    pub fn parse(source: &str) -> (tree: NixTree)
        ensures
            tree@ == syntax_view(nix_syntax(source@)),
    {
        NixTree::from_syntax(parse_nix(source))
    }

    fn end_of(&self, i: usize) -> (e: usize)
        requires
            i < self@.len(),
        ensures
            e == node_end(self@, i as int),
            i < e <= self@.len(),
    {
        let size = self.nodes[i].size;
        let size = if size == 0 {
            1
        } else {
            size
        };
        if size > self.nodes.len() - i {
            self.nodes.len()
        } else {
            i + size
        }
    }

    fn text_is(&self, i: usize, name: &[char]) -> (r: bool)
        requires
            i < self@.len(),
        ensures
            r == (self@[i as int].text == name@),
    {
        chars_eq(&chars_of(self.nodes[i].text.as_str()), name)
    }

    fn binding_value_from(&self, first: usize, stop: usize, name: &[char]) -> (r: Option<Vec<char>>)
        requires
            stop <= self@.len(),
        ensures
            match binding_value(self@, first as int, stop as int, name@, false) {
                Some(v) => r matches Some(w) && w@ == v,
                None => r is None,
            },
    {
        let ghost nodes = self@;
        let mut c = first;
        let mut found = false;
        while c < stop
            invariant
                nodes == self@,
                stop <= nodes.len(),
                first <= c,
                c <= nodes.len() || c == first,
                binding_value(nodes, first as int, stop as int, name@, false) == binding_value(
                    nodes,
                    c as int,
                    stop as int,
                    name@,
                    found,
                ),
            decreases nodes.len() - c,
        {
            let kind = &self.nodes[c].kind;
            if kind_eq(kind, &NixKind::Attrpath) && self.text_is(c, name) {
                found = true;
            }
            if found && kind_eq(kind, &NixKind::Str) {
                let text = chars_of(self.nodes[c].text.as_str());
                return Some(trim_matches(&text, '"'));
            } else if found && kind_eq(kind, &NixKind::Literal) {
                return Some(chars_of(self.nodes[c].text.as_str()));
            } else if found && kind_eq(kind, &NixKind::Ident) {
                let text = chars_of(self.nodes[c].text.as_str());
                if chars_eq(&text, &chars_of("true")) || chars_eq(&text, &chars_of("false")) {
                    return Some(text);
                }
            }
            c = self.end_of(c);
        }
        None
    }

    fn binding_set_from(&self, first: usize, stop: usize, name: &[char]) -> (r: Option<usize>)
        requires
            stop <= self@.len(),
        ensures
            match binding_set(self@, first as int, stop as int, name@, false) {
                Some(k) => r == Some(k as usize),
                None => r is None,
            },
    {
        let ghost nodes = self@;
        let mut c = first;
        let mut found = false;
        while c < stop
            invariant
                nodes == self@,
                stop <= nodes.len(),
                first <= c,
                c <= nodes.len() || c == first,
                binding_set(nodes, first as int, stop as int, name@, false) == binding_set(
                    nodes,
                    c as int,
                    stop as int,
                    name@,
                    found,
                ),
            decreases nodes.len() - c,
        {
            let kind = &self.nodes[c].kind;
            if kind_eq(kind, &NixKind::Attrpath) && self.text_is(c, name) {
                found = true;
            }
            if found && kind_eq(kind, &NixKind::AttrSet) {
                return Some(c);
            }
            c = self.end_of(c);
        }
        None
    }

    /// The value bound to `attr_name` anywhere under node `node` (see
    /// `attr_value`).
    pub fn find_attr_value(&self, node: usize, attr_name: &str) -> (r: Option<String>)
        ensures
            match attr_value(self@, node as int, attr_name@) {
                Some(v) => r matches Some(w) && w@ == v,
                None => r is None,
            },
    {
        if node >= self.nodes.len() {
            return None;
        }
        let name = chars_of(attr_name);
        let stop = self.end_of(node);
        let mut d = node;
        while d < stop
            invariant
                node <= d,
                node < self@.len(),
                stop == node_end(self@, node as int),
                stop <= self@.len(),
                name@ == attr_name@,
                attr_value(self@, node as int, attr_name@) == first_value(
                    self@,
                    d as int,
                    stop as int,
                    attr_name@,
                ),
            decreases stop - d,
        {
            if kind_eq(&self.nodes[d].kind, &NixKind::AttrpathValue) {
                let end = self.end_of(d);
                if let Some(v) = self.binding_value_from(d + 1, end, &name) {
                    return Some(string_of(&v));
                }
            }
            d = d + 1;
        }
        None
    }

    /// The attribute set bound to `set_name` anywhere under node `node` (see
    /// `attr_set`).
    pub fn find_attrset(&self, node: usize, set_name: &str) -> (r: Option<usize>)
        ensures
            match attr_set(self@, node as int, set_name@) {
                Some(k) => r == Some(k as usize) && 0 <= k < self@.len(),
                None => r is None,
            },
    {
        if node >= self.nodes.len() {
            return None;
        }
        proof {
            lemma_first_set_range(self@, node as int, node_end(self@, node as int), set_name@);
        }
        let name = chars_of(set_name);
        let stop = self.end_of(node);
        let mut d = node;
        while d < stop
            invariant
                node <= d,
                node < self@.len(),
                stop == node_end(self@, node as int),
                stop <= self@.len(),
                name@ == set_name@,
                attr_set(self@, node as int, set_name@) == first_set(
                    self@,
                    d as int,
                    stop as int,
                    set_name@,
                ),
            decreases stop - d,
        {
            if kind_eq(&self.nodes[d].kind, &NixKind::AttrpathValue) {
                let end = self.end_of(d);
                proof {
                    lemma_binding_set_range(self@, d + 1, end as int, set_name@, false);
                }
                if let Some(s) = self.binding_set_from(d + 1, end, &name) {
                    return Some(s);
                }
            }
            d = d + 1;
        }
        None
    }

    fn section_value(&self, section: &str, key: &str) -> (r: Option<String>)
        ensures
            match section_value(self@, section@, key@) {
                Some(v) => r matches Some(w) && w@ == v,
                None => r is None,
            },
    {
        let count = self.nodes.len();
        let found = self.find_attrset(0, section);
        match found {
            Some(set) => {
                proof {
                    let k = attr_set(self@, 0, section@).unwrap();
                    assert(count == self@.len());
                    assert(found == Some(k as usize));
                    assert(set as int == k);
                    assert(section_value(self@, section@, key@) == attr_value(self@, k, key@));
                }
                self.find_attr_value(set, key)
            },
            None => None,
        }
    }
}

fn text_or(value: Option<String>, default: &str) -> (s: String)
    ensures
        s@ == text_setting(
            match value {
                Some(v) => Some(v@),
                None => None,
            },
            default@,
        ),
{
    match value {
        Some(v) => v,
        None => string_of(&chars_of(default)),
    }
}

fn port_or(value: Option<String>, default: u16) -> (p: u16)
    ensures
        p == port_setting(
            match value {
                Some(v) => Some(v@),
                None => None,
            },
            default,
        ),
{
    match value {
        Some(v) => match parse_u16(&chars_of(v.as_str())) {
            Some(p) => p,
            None => default,
        },
        None => default,
    }
}

fn flag_or(value: Option<String>, default: bool) -> (b: bool)
    ensures
        b == flag_setting(
            match value {
                Some(v) => Some(v@),
                None => None,
            },
            default,
        ),
{
    match value {
        Some(v) => chars_eq(&chars_of(v.as_str()), &chars_of("true")),
        None => default,
    }
}

/// The configuration that a syntax tree gives (see `config_of`).
pub fn config_from_tree(tree: &NixTree) -> (config: Config)
    ensures
        config_of(tree@, config),
{
    let target = text_or(tree.section_value("proxy", "target"), "http://localhost");
    let port = port_or(tree.section_value("proxy", "port"), 80);
    let path = text_or(tree.section_value("proxy", "path"), "/");
    let web_port = port_or(tree.section_value("web", "port"), 9595);
    let hostname = text_or(tree.section_value("web", "hostname"), "127.0.0.1");
    let log = flag_or(tree.section_value("features", "log"), true);
    Config {
        proxy_config: ProxyConfig { target, port, path },
        web_config: WebConfig { port: web_port, hostname },
        features_config: FeaturesConfig { log },
    }
}

/// The configuration written in a Nix text (see `config_of`); the text is
/// parsed by `rnix`.
pub fn parse_config(source: &str) -> (config: Config)
    ensures
        config_of(syntax_view(nix_syntax(source@)), config),
{
    config_from_tree(&NixTree::parse(source))
}

} // verus!
