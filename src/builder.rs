//! Accumulates a client's configuration and checks it before the client is built.
use vstd::prelude::*;

verus! {

/// Whether `s` parses as a URL; what `url::Url::parse` decides of the text alone.
pub uninterp spec fn is_node_url(s: Seq<char>) -> bool;

/// Whether `s` parses as JSON text; what `serde_json::from_str` decides of the text alone.
pub uninterp spec fn is_json_text(s: Seq<char>) -> bool;

/// Relies on `url::Url::parse`: succeeds exactly on the texts it accepts as a URL.
#[verifier::external_body]
fn node_url_parses(s: &str) -> (r: bool)
    ensures
        r == is_node_url(s@),
{
    url::Url::parse(s).is_ok()
}

/// Relies on `serde_json::from_str` into a `serde_json::Value`: succeeds exactly on JSON text.
#[verifier::external_body]
fn json_parses(s: &str) -> (r: bool)
    ensures
        r == is_json_text(s@),
{
    serde_json::from_str::<serde_json::Value>(s).is_ok()
}

/// The configuration gathered so far.
pub struct BuilderView {
    pub nodes: Seq<String>,
    pub quorum_size: Option<u8>,
    pub quorum_threshold: Option<u8>,
    pub broker_options: Option<String>,
}

impl BuilderView {
    /// Nothing configured.
    pub open spec fn empty() -> BuilderView {
        BuilderView {
            nodes: Seq::empty(),
            quorum_size: None,
            quorum_threshold: None,
            broker_options: None,
        }
    }

    /// `urls` appended to the node list, in order.
    pub open spec fn with_nodes(self, urls: Seq<String>) -> BuilderView {
        BuilderView { nodes: self.nodes + urls, ..self }
    }

    /// The quorum size set to `n`, whatever it was.
    pub open spec fn with_quorum_size(self, n: u8) -> BuilderView {
        BuilderView { quorum_size: Some(n), ..self }
    }

    /// The quorum threshold set to `n`, whatever it was.
    pub open spec fn with_quorum_threshold(self, n: u8) -> BuilderView {
        BuilderView { quorum_threshold: Some(n), ..self }
    }

    /// The broker options set to `text`, whatever they were.
    pub open spec fn with_broker_options(self, text: String) -> BuilderView {
        BuilderView { broker_options: Some(text), ..self }
    }
}

/// The checked configuration that a broker client is connected with.
#[derive(Clone, Debug, PartialEq, Eq)]
pub struct ClientConfig {
    /// Endpoint URLs, in the order they were added, duplicates kept.
    pub nodes: Vec<String>,
    pub quorum_size: Option<u8>,
    pub quorum_threshold: Option<u8>,
    /// Broker options as JSON text.
    pub broker_options: Option<String>,
}

/// Why a configuration was refused.
#[derive(Clone, Debug, PartialEq, Eq)]
pub enum BuildError {
    /// No node was added; the broker client needs at least one.
    NoNodes,
    /// The node at `index` of the list is not a URL.
    InvalidNodeUrl { index: usize, url: String },
}

/// The broker options text is not JSON.
#[derive(Clone, Debug, PartialEq, Eq)]
pub struct InvalidBrokerOptions {
    pub text: String,
}

/// `index` is the first position at which `valid` is false.
pub open spec fn first_invalid(valid: Seq<bool>, index: int) -> bool {
    &&& 0 <= index < valid.len()
    &&& !valid[index]
    &&& forall|j: int| 0 <= j < index ==> #[trigger] valid[j]
}

/// Whether `r` is the outcome of building `v` when `valid[i]` tells whether node `i` is a URL:
/// no nodes fail; else the first node that is no URL fails; else every field is carried over.
pub open spec fn build_outcome(v: BuilderView, valid: Seq<bool>, r: Result<ClientConfig, BuildError>) -> bool {
    &&& (r is Ok <==> v.nodes.len() > 0 && forall|i: int| 0 <= i < valid.len() ==> #[trigger] valid[i])
    &&& (r matches Err(BuildError::NoNodes) <==> v.nodes.len() == 0)
    &&& (r matches Err(BuildError::InvalidNodeUrl { index, url }) ==> first_invalid(valid, index as int)
        && url == v.nodes[index as int])
    &&& (r matches Ok(c) ==> c.nodes@ == v.nodes && c.quorum_size == v.quorum_size
        && c.quorum_threshold == v.quorum_threshold && c.broker_options == v.broker_options)
}

/// For each node, whether it parses as a URL.
pub open spec fn node_validity(nodes: Seq<String>) -> Seq<bool> {
    Seq::new(nodes.len(), |i: int| is_node_url(nodes[i]@))
}

/// Configuration gathered by setter calls, consumed by `build`.
pub struct ClientBuilderWrapper {
    nodes: Vec<String>,
    quorum_size: Option<u8>,
    quorum_threshold: Option<u8>,
    broker_options: Option<String>,
}

impl View for ClientBuilderWrapper {
    type V = BuilderView;

    closed spec fn view(&self) -> BuilderView {
        BuilderView {
            nodes: self.nodes@,
            quorum_size: self.quorum_size,
            quorum_threshold: self.quorum_threshold,
            broker_options: self.broker_options,
        }
    }
}

impl ClientBuilderWrapper {
    /// A builder with nothing configured.
    pub fn new() -> (r: ClientBuilderWrapper)
        ensures
            r@ == BuilderView::empty(),
    {
        ClientBuilderWrapper {
            nodes: Vec::new(),
            quorum_size: None,
            quorum_threshold: None,
            broker_options: None,
        }
    }

    /// Appends one endpoint URL; it is checked only by `build`.
    pub fn node(&mut self, url: String)
        ensures
            final(self)@ == old(self)@.with_nodes(seq![url]),
    {
        self.nodes.push(url);
        proof {
            assert(self@.nodes =~= old(self)@.nodes + seq![url]);
        }
    }

    /// Appends endpoint URLs in order, as that many calls of `node` would.
    pub fn nodes(&mut self, urls: Vec<String>)
        ensures
            final(self)@ == old(self)@.with_nodes(urls@),
    {
        let mut i: usize = 0;
        while i < urls.len()
            invariant
                0 <= i <= urls@.len(),
                self@ == old(self)@.with_nodes(urls@.take(i as int)),
            decreases urls@.len() - i,
        {
            let u = urls[i].clone();
            self.nodes.push(u);
            proof {
                assert(urls@.take(i + 1) =~= urls@.take(i as int).push(urls@[i as int]));
                assert(self@.nodes =~= old(self)@.nodes + urls@.take(i + 1));
            }
            i = i + 1;
        }
        proof {
            assert(urls@.take(i as int) =~= urls@);
        }
    }

    /// Sets the quorum threshold; a later call overrides it.
    pub fn quorum_threshold(&mut self, n: u8)
        ensures
            final(self)@ == old(self)@.with_quorum_threshold(n),
    {
        self.quorum_threshold = Some(n);
    }

    /// Sets the quorum size; a later call overrides it.
    pub fn quorum_size(&mut self, n: u8)
        ensures
            final(self)@ == old(self)@.with_quorum_size(n),
    {
        self.quorum_size = Some(n);
    }

    /// Sets the broker options from JSON text; text that is not JSON is refused and
    /// leaves the builder unchanged.
    pub fn broker_options(&mut self, text: String) -> (r: Result<(), InvalidBrokerOptions>)
        ensures
            r is Ok <==> is_json_text(text@),
            r is Ok ==> final(self)@ == old(self)@.with_broker_options(text),
            r matches Err(e) ==> e.text == text && final(self)@ == old(self)@,
    {
        let parses = json_parses(text.as_str());
        self.apply_broker_options(text, parses)
    }

    /// Sets the broker options when `parses` says `text` is JSON, else refuses them.
    pub fn apply_broker_options(&mut self, text: String, parses: bool) -> (r: Result<
        (),
        InvalidBrokerOptions,
    >)
        ensures
            r is Ok <==> parses,
            r is Ok ==> final(self)@ == old(self)@.with_broker_options(text),
            r matches Err(e) ==> e.text == text && final(self)@ == old(self)@,
    {
        if parses {
            self.broker_options = Some(text);
            Ok(())
        } else {
            Err(InvalidBrokerOptions { text })
        }
    }

    /// Checks the gathered configuration and hands it out for connecting a client:
    /// at least one node, each of them a URL. The builder is left as it was, so a
    /// second call gives a second, equal configuration.
    pub fn build(&self) -> (r: Result<ClientConfig, BuildError>)
        ensures
            build_outcome(self@, node_validity(self@.nodes), r),
    {
        let mut valid: Vec<bool> = Vec::new();
        let mut i: usize = 0;
        while i < self.nodes.len()
            invariant
                0 <= i <= self.nodes@.len(),
                valid@ == node_validity(self@.nodes).take(i as int),
            decreases self.nodes@.len() - i,
        {
            let ok = node_url_parses(self.nodes[i].as_str());
            valid.push(ok);
            proof {
                assert(valid@ =~= node_validity(self@.nodes).take(i + 1));
            }
            i = i + 1;
        }
        proof {
            assert(valid@ =~= node_validity(self@.nodes));
        }
        self.build_with(&valid)
    }

    /// The outcome of `build` when `node_valid[i]` tells whether node `i` is a URL.
    pub fn build_with(&self, node_valid: &Vec<bool>) -> (r: Result<ClientConfig, BuildError>)
        requires
            node_valid@.len() == self@.nodes.len(),
        ensures
            build_outcome(self@, node_valid@, r),
    {
        if self.nodes.len() == 0 {
            return Err(BuildError::NoNodes);
        }
        let mut nodes: Vec<String> = Vec::new();
        let mut i: usize = 0;
        while i < self.nodes.len()
            invariant
                0 <= i <= self.nodes@.len(),
                node_valid@.len() == self.nodes@.len(),
                nodes@ == self.nodes@.take(i as int),
                forall|j: int| 0 <= j < i ==> #[trigger] node_valid@[j],
            decreases self.nodes@.len() - i,
        {
            if !node_valid[i] {
                return Err(BuildError::InvalidNodeUrl { index: i, url: self.nodes[i].clone() });
            }
            nodes.push(self.nodes[i].clone());
            proof {
                assert(nodes@ =~= self.nodes@.take(i + 1));
            }
            i = i + 1;
        }
        proof {
            assert(nodes@ =~= self.nodes@);
        }
        Ok(
            ClientConfig {
                nodes,
                quorum_size: self.quorum_size,
                quorum_threshold: self.quorum_threshold,
                broker_options: match &self.broker_options {
                    Some(t) => Some(t.clone()),
                    None => None,
                },
            },
        )
    }
}

/// The builder after a run of `nodes` calls, one for each list in `calls`
/// (a `node` call is a list of one).
pub open spec fn after_node_calls(v: BuilderView, calls: Seq<Seq<String>>) -> BuilderView
    decreases calls.len(),
{
    if calls.len() == 0 {
        v
    } else {
        after_node_calls(v.with_nodes(calls[0]), calls.drop_first())
    }
}

proof fn lemma_after_node_calls(v: BuilderView, calls: Seq<Seq<String>>)
    ensures
        after_node_calls(v, calls) == v.with_nodes(calls.flatten()),
    decreases calls.len(),
{
    if calls.len() > 0 {
        lemma_after_node_calls(v.with_nodes(calls[0]), calls.drop_first());
        assert(v.nodes + calls[0] + calls.drop_first().flatten() =~= v.nodes + calls.flatten());
    } else {
        assert(v.nodes + calls.flatten() =~= v.nodes);
    }
}

/// Whatever run of `node` / `nodes` calls fills a fresh builder, a successful build
/// carries exactly the concatenation of all the added URLs, in call order.
pub proof fn lemma_build_keeps_all_nodes(
    calls: Seq<Seq<String>>,
    valid: Seq<bool>,
    r: Result<ClientConfig, BuildError>,
)
    requires
        build_outcome(after_node_calls(BuilderView::empty(), calls), valid, r),
    ensures
        after_node_calls(BuilderView::empty(), calls).nodes == calls.flatten(),
        r matches Ok(c) ==> c.nodes@ == calls.flatten(),
{
    lemma_after_node_calls(BuilderView::empty(), calls);
    assert(Seq::<String>::empty() + calls.flatten() =~= calls.flatten());
}

/// Setting the quorum size twice keeps the second value only, and a build then
/// carries that value.
pub proof fn lemma_quorum_size_last_wins(
    v: BuilderView,
    n: u8,
    m: u8,
    valid: Seq<bool>,
    r: Result<ClientConfig, BuildError>,
)
    requires
        build_outcome(v.with_quorum_size(n).with_quorum_size(m), valid, r),
    ensures
        v.with_quorum_size(n).with_quorum_size(m) == v.with_quorum_size(m),
        r matches Ok(c) ==> c.quorum_size == Some(m),
{
}

/// A build of a builder without nodes always fails with `NoNodes`.
pub proof fn lemma_build_without_nodes_fails(
    v: BuilderView,
    valid: Seq<bool>,
    r: Result<ClientConfig, BuildError>,
)
    requires
        v.nodes.len() == 0,
        build_outcome(v, valid, r),
    ensures
        r == Err::<ClientConfig, BuildError>(BuildError::NoNodes),
{
}

} // verus!
