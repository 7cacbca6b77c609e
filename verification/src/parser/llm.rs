//! Natural language to code.
//!
//! A description is turned into code by a remote model when an API client is
//! configured, and otherwise by templates for common patterns; the code is
//! then wrapped into a graph. Results are cached per description.

use crate::ir::graph::{initial_metadata, is_new_node, Edge, GraphIR, IrView, Node, NodeId, Operation};
use crate::text::{contains_str, lowercase, seq_contains, to_lowercase};
use vstd::prelude::*;

verus! {

/// An HTTP client for the remote model.
#[verifier::external_type_specification]
#[verifier::external_body]
pub struct ExClient(reqwest::Client);

/// Template for descriptions about prime numbers.
pub const PRIME_TEMPLATE: &'static str = r#"
fn is_prime(n: u64) -> bool {
    if n < 2 { return false; }
    if n == 2 { return true; }
    if n % 2 == 0 { return false; }
    let mut i = 3;
    while i * i <= n {
        if n % i == 0 { return false; }
        i += 2;
    }
    true
}
"#;

/// Template for descriptions about Fibonacci numbers.
pub const FIBONACCI_TEMPLATE: &'static str = r#"
fn fibonacci(n: u64) -> u64 {
    if n <= 1 { return n; }
    let mut a = 0u64;
    let mut b = 1u64;
    for _ in 2..=n {
        let temp = a + b;
        a = b;
        b = temp;
    }
    b
}
"#;

/// Template for descriptions about sorting.
pub const SORT_TEMPLATE: &'static str = r#"
fn quicksort<T: Ord>(arr: &mut [T]) {
    if arr.len() <= 1 { return; }
    let pivot = partition(arr);
    quicksort(&mut arr[..pivot]);
    quicksort(&mut arr[pivot + 1..]);
}

fn partition<T: Ord>(arr: &mut [T]) -> usize {
    let pivot = arr.len() - 1;
    let mut i = 0;
    for j in 0..pivot {
        if arr[j] <= arr[pivot] {
            arr.swap(i, j);
            i += 1;
        }
    }
    arr.swap(i, pivot);
    i
}
"#;

/// Keywords that select the templates, in English and in Persian or Arabic.
pub const PRIME_KEYWORD: &'static str = "prime";
pub const PRIME_KEYWORD_ALT: &'static str = "عدد اول";
pub const FIBONACCI_KEYWORD: &'static str = "fibonacci";
pub const FIBONACCI_KEYWORD_ALT: &'static str = "فیبوناچی";
pub const SORT_KEYWORD: &'static str = "sort";
pub const SORT_KEYWORD_ALT: &'static str = "مرتب";

/// Start of the code generated when no template applies.
pub const STUB_HEAD: &'static str = "fn generated_function() {\n    // ";
/// Start of the code answered on behalf of the remote model.
pub const API_STUB_HEAD: &'static str = "fn generated_function() {\n    // TODO: ";
/// End of both stubs.
pub const STUB_TAIL: &'static str = "\n    unimplemented!()\n}";

/// The prompt sent to the remote model, before and after the description.
pub const PROMPT_HEAD: &'static str = "You are a code generation AI. Generate Rust code for the following description:\n\nDescription: ";
pub const PROMPT_TAIL: &'static str = "\n\nRequirements:\n- Return ONLY valid Rust code\n- No explanations, no markdown, just code\n- Use only standard library\n- Function name should be descriptive\n\nCode:";

/// The prompt of the node that holds generated code.
pub const GENERATED_PROMPT: &'static str = "generated";

/// Token budget of a request to the remote model.
pub const MAX_TOKENS: u32 = 1024u32;
/// Bit pattern of the `f32` sampling temperature 0.2.
pub const TEMPERATURE_BITS: u32 = 0x3e4c_cccdu32;
/// Bit pattern of the `f32` confidence 0.8 given to remote answers.
pub const API_CONFIDENCE_BITS: u32 = 0x3f4c_cccdu32;
/// Bit pattern of the `f32` confidence 0.7 given to template answers.
pub const TEMPLATE_CONFIDENCE_BITS: u32 = 0x3f33_3333u32;

/// A request to the remote model. The temperature is the bit pattern of an `f32`.
pub struct LlmRequest {
    pub prompt: String,
    pub max_tokens: u32,
    pub temperature_bits: u32,
}

/// Generated code with the generator's confidence (bit pattern of an `f32`).
pub struct LlmResponse {
    pub code: String,
    pub confidence_bits: u32,
}

/// Where and how to reach the remote model.
pub struct ApiClient {
    pub endpoint: String,
    pub api_key: String,
    pub client: reqwest::Client,
}

/// A cached result: the graph built for a description.
pub struct CacheEntry {
    pub description: String,
    pub ir: GraphIR,
}

/// Turns natural-language descriptions into graphs.
pub struct NaturalLanguageParser {
    local_model: bool,
    api_client: Option<ApiClient>,
    cache: Vec<CacheEntry>,
}

/// What a parser holds: whether a local model and an API client are
/// configured, the endpoint and key of the API client when there is one, and
/// the cache as (description, graph) pairs in insertion order.
pub struct ParserView {
    pub local_model: bool,
    pub api: bool,
    pub api_endpoint: Seq<char>,
    pub api_key: Seq<char>,
    pub cache: Seq<(Seq<char>, IrView)>,
}

/// The stub for a description that no template covers.
pub open spec fn stub_code(desc: Seq<char>) -> Seq<char> {
    STUB_HEAD@ + desc + STUB_TAIL@
}

/// The code answered on behalf of the remote model.
pub open spec fn api_code(desc: Seq<char>) -> Seq<char> {
    API_STUB_HEAD@ + desc + STUB_TAIL@
}

/// The prompt for a description.
pub open spec fn prompt_for(desc: Seq<char>) -> Seq<char> {
    PROMPT_HEAD@ + desc + PROMPT_TAIL@
}

/// The template chosen for `desc`, given `lower`, its lowercase form.
pub open spec fn template_code_for(lower: Seq<char>, desc: Seq<char>) -> Seq<char> {
    if seq_contains(lower, PRIME_KEYWORD@) || seq_contains(lower, PRIME_KEYWORD_ALT@) {
        PRIME_TEMPLATE@
    } else if seq_contains(lower, FIBONACCI_KEYWORD@) || seq_contains(lower, FIBONACCI_KEYWORD_ALT@) {
        FIBONACCI_TEMPLATE@
    } else if seq_contains(lower, SORT_KEYWORD@) || seq_contains(lower, SORT_KEYWORD_ALT@) {
        SORT_TEMPLATE@
    } else {
        stub_code(desc)
    }
}

/// The template chosen for `desc`.
pub open spec fn template_code(desc: Seq<char>) -> Seq<char> {
    template_code_for(lowercase(desc), desc)
}

/// The code generated for `desc`, with or without an API client.
pub open spec fn generated_code(api: bool, desc: Seq<char>) -> Seq<char> {
    if api {
        api_code(desc)
    } else {
        template_code(desc)
    }
}

/// `v` is the graph built around `code`: entry (id 0) and exit (id 1)
/// nodes, then one node (id 2) holding the code, and no edges.
pub open spec fn is_code_ir(v: IrView, code: Seq<char>) -> bool {
    &&& v.next_id == 3
    &&& v.entry == NodeId(0)
    &&& v.exit == NodeId(1)
    &&& v.edges == Seq::<Edge>::empty()
    &&& v.nodes.dom() == set![0u64, 1u64, 2u64]
    &&& is_new_node(v.nodes[0], NodeId(0), Operation::Jump { target: NodeId(0) }, seq![])
    &&& is_new_node(v.nodes[1], NodeId(1), Operation::Return, seq![])
    &&& is_code_node(v.nodes[2], code)
}

/// `n` is the node with id 2 that holds `code`.
pub open spec fn is_code_node(n: Node, code: Seq<char>) -> bool {
    &&& n.id == NodeId(2)
    &&& n.inputs@ == Seq::<NodeId>::empty()
    &&& n.outputs@ == Seq::<NodeId>::empty()
    &&& n.metadata == initial_metadata()
    &&& match n.op {
        Operation::LlmGenerated { prompt, code: c } => prompt@ == GENERATED_PROMPT@ && c@ == code,
        _ => false,
    }
}

/// `key` is a description held in `cache`.
pub open spec fn cache_has(cache: Seq<(Seq<char>, IrView)>, key: Seq<char>) -> bool {
    exists|i: int| 0 <= i < cache.len() && (#[trigger] cache[i]).0 == key
}

/// Every cached graph was built, with or without an API client, from its
/// description, and no description is cached twice.
pub open spec fn cache_wf(cache: Seq<(Seq<char>, IrView)>) -> bool {
    &&& forall|i: int, j: int|
        0 <= i < j < cache.len() ==> (#[trigger] cache[i]).0 != (#[trigger] cache[j]).0
    &&& forall|i: int|
        0 <= i < cache.len() ==> is_code_ir((#[trigger] cache[i]).1, generated_code(false, cache[i].0))
            || is_code_ir(cache[i].1, generated_code(true, cache[i].0))
}

/// What parsing `desc` does to a parser with state `before`, leaving it in
/// state `after` and answering `ir`: the configuration stays; a cached
/// description is answered from the cache, which stays as it is; any other
/// is answered with the graph of the generated code, which is cached.
pub open spec fn parse_post(before: ParserView, desc: Seq<char>, after: ParserView, ir: IrView) -> bool {
    &&& after.local_model == before.local_model
    &&& after.api == before.api
    &&& after.api_endpoint == before.api_endpoint
    &&& after.api_key == before.api_key
    &&& cache_has(before.cache, desc) ==> {
        &&& after.cache == before.cache
        &&& forall|i: int|
            0 <= i < before.cache.len() && (#[trigger] before.cache[i]).0 == desc ==> ir == before.cache[i].1
    }
    &&& !cache_has(before.cache, desc) ==> {
        &&& is_code_ir(ir, generated_code(before.api, desc))
        &&& after.cache == before.cache.push((desc, ir))
    }
}

impl View for NaturalLanguageParser {
    type V = ParserView;

    closed spec fn view(&self) -> ParserView {
        ParserView {
            local_model: self.local_model,
            api: self.api_client is Some,
            api_endpoint: match &self.api_client {
                Some(c) => c.endpoint@,
                None => Seq::empty(),
            },
            api_key: match &self.api_client {
                Some(c) => c.api_key@,
                None => Seq::empty(),
            },
            cache: self.cache@.map_values(|e: CacheEntry| (e.description@, e.ir@)),
        }
    }
}

impl LlmRequest {
    /// The request sent to the remote model for `description`.
    pub fn for_description(description: &str) -> (r: LlmRequest)
        ensures
            r.prompt@ == prompt_for(description@),
            r.max_tokens == MAX_TOKENS,
            r.temperature_bits == TEMPERATURE_BITS,
    {
        let mut prompt = PROMPT_HEAD.to_owned();
        prompt.append(description);
        prompt.append(PROMPT_TAIL);
        LlmRequest { prompt, max_tokens: MAX_TOKENS, temperature_bits: TEMPERATURE_BITS }
    }
}

/// The template chosen for `description`, given `lower`, its lowercase form.
pub fn select_template(description: &str, lower: &str) -> (code: String)
    ensures
        code@ == template_code_for(lower@, description@),
{
    if contains_str(lower, PRIME_KEYWORD) || contains_str(lower, PRIME_KEYWORD_ALT) {
        PRIME_TEMPLATE.to_owned()
    } else if contains_str(lower, FIBONACCI_KEYWORD) || contains_str(lower, FIBONACCI_KEYWORD_ALT) {
        FIBONACCI_TEMPLATE.to_owned()
    } else if contains_str(lower, SORT_KEYWORD) || contains_str(lower, SORT_KEYWORD_ALT) {
        SORT_TEMPLATE.to_owned()
    } else {
        let mut code = STUB_HEAD.to_owned();
        code.append(description);
        code.append(STUB_TAIL);
        code
    }
}

impl NaturalLanguageParser {
    /// The parser's invariant: its cache is well-formed.
    #[verifier::type_invariant]
    closed spec fn inv(&self) -> bool {
        cache_wf(self@.cache)
    }

    /// A parser with no local model, no API client and an empty cache.
    pub fn new() -> (p: Self)
        ensures
            !p@.local_model,
            !p@.api,
            p@.api_endpoint == Seq::<char>::empty(),
            p@.api_key == Seq::<char>::empty(),
            p@.cache == Seq::<(Seq<char>, IrView)>::empty(),
    {
        let p = NaturalLanguageParser { local_model: false, api_client: None, cache: Vec::new() };
        assert(p@.cache =~= Seq::<(Seq<char>, IrView)>::empty());
        p
    }

    /// The parser, marked as having a local model; the caller loads the
    /// model and keeps its session.
    pub fn with_local_model(self) -> (p: Self)
        ensures
            p@.local_model,
            p@.api == self@.api,
            p@.api_endpoint == self@.api_endpoint,
            p@.api_key == self@.api_key,
            p@.cache == self@.cache,
    {
        proof {
            use_type_invariant(&self);
        }
        let mut p = self;
        p.local_model = true;
        p
    }

    /// The parser with an API client for `endpoint`, authenticated by
    /// `api_key` and reached through `client`.
    pub fn with_api(self, endpoint: String, api_key: String, client: reqwest::Client) -> (p: Self)
        ensures
            p@.api,
            p@.api_endpoint == endpoint@,
            p@.api_key == api_key@,
            p@.local_model == self@.local_model,
            p@.cache == self@.cache,
    {
        proof {
            use_type_invariant(&self);
        }
        let mut p = self;
        p.api_client = Some(ApiClient { endpoint, api_key, client });
        p
    }

    /// The answer given on behalf of the remote model. The request is
    /// built but not sent: the answer is a stub naming the description.
    pub fn call_api(&self, client: &ApiClient, description: &str) -> (r: LlmResponse)
        ensures
            r.code@ == api_code(description@),
            r.confidence_bits == API_CONFIDENCE_BITS,
    {
        let _request = LlmRequest::for_description(description);
        let mut code = API_STUB_HEAD.to_owned();
        code.append(description);
        code.append(STUB_TAIL);
        LlmResponse { code, confidence_bits: API_CONFIDENCE_BITS }
    }

    /// Code from the templates for common patterns.
    pub fn template_based(&self, description: &str) -> (r: LlmResponse)
        ensures
            r.code@ == template_code(description@),
            r.confidence_bits == TEMPLATE_CONFIDENCE_BITS,
    {
        let lower = to_lowercase(description);
        let code = select_template(description, lower.as_str());
        LlmResponse { code, confidence_bits: TEMPLATE_CONFIDENCE_BITS }
    }

    /// Code for `description`: from the remote model when an API client is
    /// configured, else from the templates. A local model does not change
    /// the answer.
    pub fn generate_code(&self, description: &str) -> (r: LlmResponse)
        ensures
            r.code@ == generated_code(self@.api, description@),
            r.confidence_bits == (if self@.api {
                API_CONFIDENCE_BITS
            } else {
                TEMPLATE_CONFIDENCE_BITS
            }),
    {
        match &self.api_client {
            Some(client) => self.call_api(client, description),
            None => self.template_based(description),
        }
    }

    /// The graph that holds `code`.
    pub fn code_to_ir(&self, code: &str) -> (ir: GraphIR)
        ensures
            ir.wf(),
            is_code_ir(ir@, code@),
    {
        let mut ir = GraphIR::new();
        let id = ir.add_node(
            Operation::LlmGenerated { prompt: GENERATED_PROMPT.to_owned(), code: code.to_owned() },
            Vec::new(),
        );
        proof {
            assert(ir.nodes@.dom() =~= set![0u64, 1u64, 2u64]);
            assert(ir.edges@ =~= Seq::<Edge>::empty());
        }
        ir
    }

    /// Index of `description` in the cache, if it is there.
    fn cache_position(&self, description: &str) -> (r: Option<usize>)
        ensures
            match r {
                Some(i) => i < self.cache@.len() && self.cache@[i as int].description@ == description@,
                None => forall|i: int|
                    0 <= i < self.cache@.len() ==> (#[trigger] self.cache@[i]).description@
                        != description@,
            },
    {
        let key = description.to_owned();
        let n = self.cache.len();
        let mut i: usize = 0;
        while i < n
            invariant
                n == self.cache@.len(),
                i <= n,
                key@ == description@,
                forall|k: int| 0 <= k < i ==> (#[trigger] self.cache@[k]).description@ != description@,
            decreases n - i,
        {
            if self.cache[i].description == key {
                return Some(i);
            }
            i = i + 1;
        }
        None
    }

    /// The graph for `description`: the cached one if the description was
    /// parsed before, else a new one built from the generated code, which
    /// is then cached.
    pub fn parse(&mut self, description: &str) -> (ir: GraphIR)
        ensures
            cache_wf(old(self)@.cache),
            cache_wf(final(self)@.cache),
            parse_post(old(self)@, description@, final(self)@, ir@),
    {
        proof {
            use_type_invariant(&*self);
        }
        let ghost view_before = self@.cache;
        match self.cache_position(description) {
            Some(i) => {
                let ir = self.cache[i].ir.clone();
                proof {
                    assert(view_before[i as int] == (self.cache@[i as int].description@, self.cache@[i as int].ir@));
                    assert forall|k: int|
                        0 <= k < view_before.len() && (#[trigger] view_before[k]).0
                            == description@ implies ir@ == view_before[k].1 by {
                        if k != i {
                            if k < i {
                                assert(view_before[k].0 != view_before[i as int].0);
                            } else {
                                assert(view_before[i as int].0 != view_before[k].0);
                            }
                        }
                    }
                }
                ir
            },
            None => {
                let generated = self.generate_code(description);
                let ir = self.code_to_ir(generated.code.as_str());
                let copy = ir.clone();
                let mut cache: Vec<CacheEntry> = Vec::new();
                std::mem::swap(&mut cache, &mut self.cache);
                cache.push(CacheEntry { description: description.to_owned(), ir: copy });
                proof {
                    assert(cache@.map_values(|e: CacheEntry| (e.description@, e.ir@)) =~= view_before.push((description@, ir@)));
                }
                self.cache = cache;
                proof {
                    assert(!cache_has(view_before, description@)) by {
                        assert forall|k: int| 0 <= k < view_before.len() implies (
                        #[trigger] view_before[k]).0 != description@ by {
                            assert(view_before[k].0 == old(self).cache@[k].description@);
                        }
                    }
                    assert(self@.cache =~= view_before.push((description@, ir@)));
                }
                ir
            },
        }
    }
}


/// Every cached graph was built from the templates.
pub open spec fn cache_from_templates(cache: Seq<(Seq<char>, IrView)>) -> bool {
    forall|i: int|
        0 <= i < cache.len() ==> is_code_ir((#[trigger] cache[i]).1, template_code(cache[i].0))
}

/// Parsing the same description twice in a row gives the same graph, and
/// the second parse leaves the parser as the first left it.
pub proof fn lemma_parse_twice(
    p0: ParserView,
    desc: Seq<char>,
    p1: ParserView,
    ir1: IrView,
    p2: ParserView,
    ir2: IrView,
)
    requires
        parse_post(p0, desc, p1, ir1),
        parse_post(p1, desc, p2, ir2),
    ensures
        ir2 == ir1,
        p2 == p1,
{
    if cache_has(p0.cache, desc) {
        let i = choose|i: int| 0 <= i < p0.cache.len() && (#[trigger] p0.cache[i]).0 == desc;
        assert(p1.cache[i].0 == desc);
    } else {
        let last = p1.cache.len() - 1;
        assert(p1.cache[last] == (desc, ir1));
        assert(cache_has(p1.cache, desc));
    }
}

/// Whatever the cache holds, a parse of a well-formed parser answers the
/// graph of the code generated for the description, from the templates
/// or from the remote model, and the parser stays well-formed.
pub proof fn lemma_parse_answers_generated_code(
    p0: ParserView,
    desc: Seq<char>,
    p1: ParserView,
    ir: IrView,
)
    requires
        cache_wf(p0.cache),
        parse_post(p0, desc, p1, ir),
    ensures
        is_code_ir(ir, generated_code(false, desc)) || is_code_ir(ir, generated_code(true, desc)),
        cache_wf(p1.cache),
{
    if cache_has(p0.cache, desc) {
        let i = choose|i: int| 0 <= i < p0.cache.len() && (#[trigger] p0.cache[i]).0 == desc;
        assert(ir == p0.cache[i].1);
    } else {
        let n = p0.cache.len();
        assert forall|i: int, j: int| 0 <= i < j < p1.cache.len() implies (#[trigger] p1.cache[i]).0
            != (#[trigger] p1.cache[j]).0 by {
            if j == n {
                assert(p1.cache[i] == p0.cache[i]);
            } else {
                assert(p1.cache[i] == p0.cache[i] && p1.cache[j] == p0.cache[j]);
            }
        }
        assert forall|i: int| 0 <= i < p1.cache.len() implies is_code_ir(
            (#[trigger] p1.cache[i]).1,
            generated_code(false, p1.cache[i].0),
        ) || is_code_ir(p1.cache[i].1, generated_code(true, p1.cache[i].0)) by {
            if i < n {
                assert(p1.cache[i] == p0.cache[i]);
            }
        }
    }
}

/// A parser without an API client whose cache came from the templates
/// answers every description with the graph of its template, and its
/// cache still comes from the templates.
pub proof fn lemma_parse_without_api_uses_templates(
    p0: ParserView,
    desc: Seq<char>,
    p1: ParserView,
    ir: IrView,
)
    requires
        !p0.api,
        cache_from_templates(p0.cache),
        parse_post(p0, desc, p1, ir),
    ensures
        is_code_ir(ir, template_code(desc)),
        cache_from_templates(p1.cache),
        !p1.api,
{
    if cache_has(p0.cache, desc) {
        let i = choose|i: int| 0 <= i < p0.cache.len() && (#[trigger] p0.cache[i]).0 == desc;
        assert(ir == p0.cache[i].1);
    } else {
        let n = p0.cache.len();
        assert forall|i: int| 0 <= i < p1.cache.len() implies is_code_ir(
            (#[trigger] p1.cache[i]).1,
            template_code(p1.cache[i].0),
        ) by {
            if i < n {
                assert(p1.cache[i] == p0.cache[i]);
            }
        }
    }
}

} // verus!
