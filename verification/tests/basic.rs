use satch::is_match;

// Exact match
#[test]
fn test_exact_match_identical_strings() {
    assert!(is_match("hello", "hello"));
}

#[test]
fn test_exact_match_different_strings() {
    assert!(!is_match("hello", "world"));
}

#[test]
fn test_exact_match_empty_strings() {
    assert!(is_match("", ""));
}

#[test]
fn test_exact_match_empty_pattern() {
    assert!(!is_match("hello", ""));
}

#[test]
fn test_exact_match_empty_input() {
    assert!(!is_match("", "hello"));
}

// Single-character wildcard (?)
#[test]
fn test_single_char_wildcard_match() {
    assert!(is_match("cat", "c?t"));
    assert!(is_match("bat", "?at"));
    assert!(is_match("cab", "ca?"));
}

#[test]
fn test_single_char_wildcard_no_match() {
    assert!(!is_match("cats", "c?t"));
    assert!(!is_match("ct", "c?t"));
    assert!(!is_match("", "?"));
}

#[test]
fn test_multiple_single_char_wildcards() {
    assert!(is_match("abc", "???"));
    assert!(is_match("hello", "h?ll?"));
    assert!(!is_match("hello", "h?l?"));
}

// Multi-character wildcard (*)
#[test]
fn test_multi_char_wildcard_match() {
    assert!(is_match("hello", "h*"));
    assert!(is_match("hello", "*o"));
    assert!(is_match("hello", "h*o"));
    assert!(is_match("hello", "*"));
}

#[test]
fn test_multi_char_wildcard_empty_match() {
    assert!(is_match("hello", "hello*"));
    assert!(is_match("hello", "*hello"));
}

#[test]
fn test_multi_char_wildcard_no_match() {
    assert!(!is_match("hello", "h*x"));
    assert!(!is_match("hello", "x*o"));
}

#[test]
fn test_multiple_multi_char_wildcards() {
    assert!(is_match("hello world", "h*o w*d"));
    assert!(is_match("test123file", "*123*"));
    assert!(is_match("abcdef", "*c*e*"));
}

// Extension patterns (*.js, *.txt, ...)
#[test]
fn test_extension_match() {
    assert!(is_match("file.js", "*.js"));
    assert!(is_match("script.js", "*.js"));
    assert!(is_match("document.txt", "*.txt"));
    assert!(is_match("README.md", "*.md"));
}

#[test]
fn test_extension_no_match() {
    assert!(!is_match("file.txt", "*.js"));
    assert!(!is_match("script", "*.js"));
    assert!(!is_match("file.", "*.js"));
    assert!(!is_match(".js", "*.js"));
}

#[test]
fn test_specific_file_with_extension() {
    assert!(is_match("index.js", "index.*"));
    assert!(is_match("test.spec.js", "test.*.js"));
    assert!(!is_match("main.js", "index.*"));
}

// Case sensitivity
#[test]
fn test_case_sensitive_match() {
    assert!(is_match("Hello", "Hello"));
    assert!(!is_match("Hello", "hello"));
    assert!(!is_match("HELLO", "hello"));
}

// Dot files
#[test]
fn test_dot_file_explicit_match() {
    assert!(is_match(".gitignore", ".gitignore"));
    assert!(is_match(".env", ".env"));
    assert!(is_match(".hidden", ".hidden"));
}

#[test]
fn test_dot_file_wildcard_match() {
    assert!(is_match(".gitignore", ".*"));
    assert!(is_match(".env", ".???"));
    assert!(is_match(".config", ".c*"));
}

#[test]
fn test_dot_file_pattern_no_match_regular_files() {
    // A pattern starting with a dot does not match a plain file name.
    assert!(!is_match("gitignore", ".*"));
    assert!(!is_match("config", ".c*"));
}

// Compound patterns
#[test]
fn test_complex_patterns() {
    assert!(is_match("test-file.spec.js", "test-*.spec.*"));
    assert!(is_match("user123profile", "user???profile"));
    assert!(is_match("src/main.rs", "src/*.rs"));
    assert!(!is_match("src/lib/main.rs", "src/*.rs"));
}

// Edge cases
#[test]
fn test_edge_cases() {
    assert!(is_match("?", "?"));
    assert!(is_match("*", "*"));
    assert!(!is_match("?", "??"));
    assert!(is_match("a?b", "a?b"));
    assert!(is_match("a*b", "a*b"));
}

#[test]
fn test_placeholder() {
    assert!(!is_match("test", "pattern"));
}
