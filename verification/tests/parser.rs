use chronos_core::ir::graph::{GraphIR, NodeId, Operation};
use chronos_core::parser::llm::{
    LlmRequest, NaturalLanguageParser, API_CONFIDENCE_BITS, FIBONACCI_TEMPLATE, PRIME_TEMPLATE,
    SORT_TEMPLATE, TEMPLATE_CONFIDENCE_BITS,
};
use chronos_core::parser::llm::select_template;

fn code_of(ir: &GraphIR) -> String {
    match &ir.nodes[&2].op {
        Operation::LlmGenerated { prompt, code } => {
            assert_eq!(prompt, "generated");
            code.clone()
        }
        other => panic!("unexpected operation {:?}", other),
    }
}

#[test]
fn prime_description_uses_prime_template() {
    let p = NaturalLanguageParser::new();
    let r = p.template_based("Write a function to check if a number is prime");
    assert_eq!(r.code, PRIME_TEMPLATE);
    assert!(r.code.contains("fn is_prime(n: u64) -> bool"));
    assert_eq!(r.confidence_bits, TEMPLATE_CONFIDENCE_BITS);
    assert_eq!(f32::from_bits(r.confidence_bits), 0.7f32);
}

#[test]
fn uppercase_keyword_is_found_after_lowercasing() {
    let p = NaturalLanguageParser::new();
    assert_eq!(p.template_based("PRIME numbers").code, PRIME_TEMPLATE);
    assert_eq!(p.template_based("Fibonacci sequence").code, FIBONACCI_TEMPLATE);
    assert_eq!(p.template_based("SORT this list").code, SORT_TEMPLATE);
}

#[test]
fn persian_keywords_select_templates() {
    let p = NaturalLanguageParser::new();
    assert_eq!(p.template_based("بررسی عدد اول").code, PRIME_TEMPLATE);
    assert_eq!(p.template_based("دنباله فیبوناچی").code, FIBONACCI_TEMPLATE);
    assert_eq!(p.template_based("آرایه مرتب").code, SORT_TEMPLATE);
}

#[test]
fn prime_wins_over_sort() {
    let p = NaturalLanguageParser::new();
    assert_eq!(p.template_based("sort the primes").code, PRIME_TEMPLATE);
}

#[test]
fn other_descriptions_get_a_stub() {
    let p = NaturalLanguageParser::new();
    let r = p.template_based("Reverse a String");
    assert_eq!(
        r.code,
        "fn generated_function() {\n    // Reverse a String\n    unimplemented!()\n}"
    );
}

#[test]
fn template_selection_reads_the_lowercase_form() {
    assert_eq!(select_template("Primes", "primes"), PRIME_TEMPLATE);
    assert_eq!(
        select_template("Primes", "Primes"),
        "fn generated_function() {\n    // Primes\n    unimplemented!()\n}"
    );
}

#[test]
fn api_answer_is_a_stub_with_todo() {
    let p = NaturalLanguageParser::new().with_api(
        "http://localhost".to_string(),
        "key".to_string(),
        reqwest::Client::new(),
    );
    let r = p.generate_code("prime numbers");
    assert_eq!(
        r.code,
        "fn generated_function() {\n    // TODO: prime numbers\n    unimplemented!()\n}"
    );
    assert_eq!(r.confidence_bits, API_CONFIDENCE_BITS);
    assert_eq!(f32::from_bits(r.confidence_bits), 0.8f32);
}

#[test]
fn request_carries_the_prompt() {
    let req = LlmRequest::for_description("add two numbers");
    assert!(req.prompt.starts_with("You are a code generation AI."));
    assert!(req.prompt.contains("Description: add two numbers\n\nRequirements:"));
    assert!(req.prompt.ends_with("Code:"));
    assert_eq!(req.max_tokens, 1024);
    assert_eq!(f32::from_bits(req.temperature_bits), 0.2f32);
}

#[test]
fn code_is_wrapped_into_a_three_node_graph() {
    let p = NaturalLanguageParser::new();
    let ir = p.code_to_ir("fn main() {}");
    assert_eq!(ir.node_count(), 3);
    assert_eq!(ir.next_id, 3);
    assert!(ir.edges.is_empty());
    assert_eq!(ir.nodes[&2].id, NodeId(2));
    assert_eq!(code_of(&ir), "fn main() {}");
}

#[test]
fn parse_builds_graph_and_caches_it() {
    let mut p = NaturalLanguageParser::new();
    let first = p.parse("compute fibonacci");
    assert_eq!(code_of(&first), FIBONACCI_TEMPLATE);
    let second = p.parse("compute fibonacci");
    assert_eq!(code_of(&second), FIBONACCI_TEMPLATE);
    assert_eq!(second.node_count(), first.node_count());
    assert_eq!(second.edges, first.edges);
}

#[test]
fn cached_answer_outlives_a_new_api_client() {
    let mut p = NaturalLanguageParser::new();
    let first = p.parse("sort numbers");
    let mut p = p.with_api(String::new(), String::new(), reqwest::Client::new());
    let again = p.parse("sort numbers");
    assert_eq!(code_of(&again), code_of(&first));
    let fresh = p.parse("sort letters");
    assert_eq!(
        code_of(&fresh),
        "fn generated_function() {\n    // TODO: sort letters\n    unimplemented!()\n}"
    );
}
