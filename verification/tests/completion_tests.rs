use worker_rpc::completion::{build_prompt, clean_response, ActiveRequests};
use worker_rpc::textscan::{contains_ci_sub, find_sub, remove_all_sub};

#[test]
fn qwen_coder_gets_fim_markers() {
    let p = build_prompt("Qwen2.5-Coder:7b", "x = 1\n", "y = ", &vec![]);
    assert_eq!(p, "<|fim_prefix|>x = 1\ny = <|fim_suffix|><|fim_middle|>");
}

#[test]
fn starcoder_gets_its_own_markers() {
    let p = build_prompt("starcoder2", "a\n", "b", &vec![]);
    assert_eq!(p, "<fim_prefix>a\nb<fim_suffix><fim_middle>");
}

#[test]
fn codellama_gets_psm_markers() {
    let p = build_prompt("CodeLlama-13b", "ctx", "line", &vec![]);
    assert_eq!(p, "<PRE> ctxline <SUF> <MID>");
}

#[test]
fn other_models_get_the_instruction_preamble() {
    let p = build_prompt("deepseek-coder", "code\n", "more", &vec![]);
    assert!(p.starts_with("You are a code completion assistant."));
    assert!(p.ends_with("Code:\ncode\nmore\n\nCompletion:"));
}

#[test]
fn columns_become_a_comment() {
    let cols = vec!["age".to_string(), "income".to_string()];
    let p = build_prompt("qwen-coder", "df\n", "df.", &cols);
    assert_eq!(p, "<|fim_prefix|># columns: age, income\ndf\ndf.<|fim_suffix|><|fim_middle|>");
}

#[test]
fn qwen_markers_are_stripped_from_responses() {
    let cleaned = clean_response("<|fim_middle|>x = 5<|endoftext|>", "qwen2.5-coder");
    assert_eq!(cleaned, "x = 5");
}

#[test]
fn starcoder_markers_are_stripped() {
    let cleaned = clean_response("<fim_middle>return 1<fim_suffix>", "starcoder");
    assert_eq!(cleaned, "return 1");
}

#[test]
fn fenced_python_block_is_extracted() {
    let raw = "Here is the code:\n```python\nprint(1)\n```\nHope that helps!";
    assert_eq!(clean_response(raw, "llama3"), "print(1)");
}

#[test]
fn plain_fence_is_extracted_too() {
    let raw = "```\nx = 2\n```";
    assert_eq!(clean_response(raw, "llama3"), "x = 2");
}

#[test]
fn leading_prose_lines_are_dropped() {
    let raw = "Here is what I came up with\n\nresult = compute()\n";
    assert_eq!(clean_response(raw, "llama3"), "result = compute()");
}

#[test]
fn all_prose_leaves_the_text_as_it_stands() {
    let raw = "This is only prose";
    assert_eq!(clean_response(raw, "llama3"), "This is only prose");
}

#[test]
fn mostly_non_ascii_responses_are_discarded() {
    let raw = "\u{8fd9}\u{662f}\u{4e00}\u{4e2a}\u{89e3}\u{91ca}\u{6027}\u{7684}\u{56de}\u{7b54}\u{5566}\u{5466}";
    assert_eq!(clean_response(raw, "llama3"), "");
}

#[test]
fn short_non_ascii_is_kept() {
    assert_eq!(clean_response("\u{00e9}=1", "llama3"), "\u{00e9}=1");
}

#[test]
fn active_requests_register_and_cancel() {
    let mut reg = ActiveRequests::new();
    assert!(!reg.is_request_active("r1"));
    reg.register_request("r1");
    reg.register_request("r2");
    reg.register_request("r1");
    assert!(reg.is_request_active("r1"));
    assert!(reg.is_request_active("r2"));
    reg.unregister_request("r1");
    assert!(!reg.is_request_active("r1"));
    assert!(reg.is_request_active("r2"));
    reg.cancel_request("r2");
    assert!(!reg.is_request_active("r2"));
    // Cancelling something unknown is harmless.
    reg.cancel_request("r3");
}

#[test]
fn substring_search_finds_the_first_occurrence() {
    assert_eq!(find_sub("abcabc", "bc"), Some(1));
    assert_eq!(find_sub("abc", "zz"), None);
    assert_eq!(find_sub("abc", ""), Some(0));
}

#[test]
fn removal_removes_every_occurrence() {
    assert_eq!(remove_all_sub("xayaxa", "a"), "xyx");
    assert_eq!(remove_all_sub("nothing here", "zz"), "nothing here");
}

#[test]
fn case_insensitive_contains() {
    assert!(contains_ci_sub("DeepSeek-Coder-V2", "deepseek"));
    assert!(contains_ci_sub("QWEN", "qwen"));
    assert!(!contains_ci_sub("llama", "qwen"));
}
