use satch::is_match;

// Basic character classes
#[test]
fn test_basic_character_class() {
    // [abc] matches a, b or c
    assert!(is_match("a", "[abc]"));
    assert!(is_match("b", "[abc]"));
    assert!(is_match("c", "[abc]"));
    assert!(!is_match("d", "[abc]"));
    assert!(!is_match("x", "[abc]"));

    // [xyz]
    assert!(is_match("x", "[xyz]"));
    assert!(is_match("y", "[xyz]"));
    assert!(is_match("z", "[xyz]"));
    assert!(!is_match("a", "[xyz]"));
    assert!(!is_match("w", "[xyz]"));
}

#[test]
fn test_character_class_in_pattern() {
    // A class combined with plain characters
    assert!(is_match("cat", "c[ao]t"));
    assert!(is_match("cot", "c[ao]t"));
    assert!(!is_match("cit", "c[ao]t"));
    assert!(!is_match("cut", "c[ao]t"));

    // Several classes in one pattern
    assert!(is_match("abc", "[ab][bc][cd]"));
    assert!(is_match("acc", "[ab][bc][cd]"));
    assert!(!is_match("xyz", "[ab][bc][cd]"));
}

// Ranges
#[test]
fn test_character_range_class() {
    // [a-z]: lower-case letters
    assert!(is_match("a", "[a-z]"));
    assert!(is_match("m", "[a-z]"));
    assert!(is_match("z", "[a-z]"));
    assert!(!is_match("A", "[a-z]"));
    assert!(!is_match("1", "[a-z]"));
    assert!(!is_match("@", "[a-z]"));

    // [A-Z]: upper-case letters
    assert!(is_match("A", "[A-Z]"));
    assert!(is_match("M", "[A-Z]"));
    assert!(is_match("Z", "[A-Z]"));
    assert!(!is_match("a", "[A-Z]"));
    assert!(!is_match("1", "[A-Z]"));

    // [0-9]: digits
    assert!(is_match("0", "[0-9]"));
    assert!(is_match("5", "[0-9]"));
    assert!(is_match("9", "[0-9]"));
    assert!(!is_match("a", "[0-9]"));
    assert!(!is_match("A", "[0-9]"));
}

#[test]
fn test_character_range_in_patterns() {
    assert!(is_match("file1.txt", "file[0-9].txt"));
    assert!(is_match("file5.txt", "file[0-9].txt"));
    assert!(is_match("file9.txt", "file[0-9].txt"));
    assert!(!is_match("filea.txt", "file[0-9].txt"));
    assert!(!is_match("file10.txt", "file[0-9].txt")); // two digits cannot match one class

    assert!(is_match("version_a", "version_[a-z]"));
    assert!(is_match("version_z", "version_[a-z]"));
    assert!(!is_match("version_A", "version_[a-z]"));
}

// Several ranges in one class
#[test]
fn test_multiple_character_ranges() {
    // [a-zA-Z]
    assert!(is_match("a", "[a-zA-Z]"));
    assert!(is_match("Z", "[a-zA-Z]"));
    assert!(is_match("m", "[a-zA-Z]"));
    assert!(is_match("M", "[a-zA-Z]"));
    assert!(!is_match("1", "[a-zA-Z]"));
    assert!(!is_match("@", "[a-zA-Z]"));

    // [a-zA-Z0-9]
    assert!(is_match("a", "[a-zA-Z0-9]"));
    assert!(is_match("Z", "[a-zA-Z0-9]"));
    assert!(is_match("5", "[a-zA-Z0-9]"));
    assert!(!is_match("@", "[a-zA-Z0-9]"));
    assert!(!is_match("-", "[a-zA-Z0-9]"));
}

#[test]
fn test_alphanumeric_patterns() {
    assert!(is_match("file1", "file[0-9a-zA-Z]"));
    assert!(is_match("fileA", "file[0-9a-zA-Z]"));
    assert!(is_match("filez", "file[0-9a-zA-Z]"));
    assert!(!is_match("file@", "file[0-9a-zA-Z]"));

    assert!(is_match("var1", "[a-zA-Z][a-zA-Z0-9]*"));
    assert!(is_match("Var2", "[a-zA-Z][a-zA-Z0-9]*"));
    assert!(!is_match("1var", "[a-zA-Z][a-zA-Z0-9]")); // begins with a digit
}

// Negated classes
#[test]
fn test_negated_character_class() {
    // [^abc]: anything but a, b, c
    assert!(!is_match("a", "[^abc]"));
    assert!(!is_match("b", "[^abc]"));
    assert!(!is_match("c", "[^abc]"));
    assert!(is_match("d", "[^abc]"));
    assert!(is_match("x", "[^abc]"));
    assert!(is_match("1", "[^abc]"));
    assert!(is_match("@", "[^abc]"));

    // [^a-z]: anything but lower-case letters
    assert!(!is_match("a", "[^a-z]"));
    assert!(!is_match("m", "[^a-z]"));
    assert!(!is_match("z", "[^a-z]"));
    assert!(is_match("A", "[^a-z]"));
    assert!(is_match("1", "[^a-z]"));
    assert!(is_match("@", "[^a-z]"));
}

#[test]
fn test_negated_class_in_patterns() {
    assert!(is_match("testa.log", "test[^0-9].log")); // anything but a digit
    assert!(!is_match("test5.log", "test[^0-9].log"));

    assert!(is_match("file@name", "file[^a-z]name"));
    assert!(!is_match("filename", "file[^a-z]name"));
}

// Literal hyphens
#[test]
fn test_escaped_characters_in_class() {
    assert!(is_match("-", "[-]")); // hyphen alone
    assert!(is_match("-", "[a-]")); // trailing hyphen
    assert!(is_match("-", "[-z]")); // leading hyphen
    assert!(is_match("a", "[a-]")); // the plain member still matches
    assert!(!is_match("b", "[a-]")); // not a range
}

#[test]
fn test_bracket_characters() {
    assert!(is_match("[", "[[]")); // an opening bracket as a class member
}

// Compound patterns
#[test]
fn test_complex_character_class_patterns() {
    assert!(is_match("test1.txt", "test[0-9].txt"));
    assert!(is_match("test9.txt", "test[0-9].txt"));
    assert!(!is_match("testa.txt", "test[0-9].txt"));

    assert!(is_match("file.txt", "[a-z]*.txt"));
    assert!(is_match("main.cpp", "[a-z]*.cpp"));
    assert!(!is_match("File.txt", "[a-z]*.txt")); // begins upper-case

    assert!(is_match("a1b2c3", "[a-z][0-9]*"));
    assert!(is_match("x9test", "[a-z][0-9]*"));
    assert!(!is_match("1abc", "[a-z][0-9]*")); // begins with a digit

    assert!(is_match("file.txt", "*.[a-z][a-z][a-z]"));
    assert!(is_match("main.cpp", "*.[a-z][a-z][a-z]"));
    assert!(!is_match("file.TXT", "*.[a-z][a-z][a-z]")); // upper-case extension
    assert!(!is_match("file.js", "*.[a-z][a-z][a-z]")); // two-letter extension
}

#[test]
fn test_character_class_with_wildcards() {
    assert!(is_match("log2023.txt", "log[0-9]*.txt"));
    assert!(is_match("log5backup.txt", "log[0-9]*.txt"));
    assert!(!is_match("logbackup.txt", "log[0-9]*.txt"));

    assert!(is_match("a1x", "[a-z]?[a-z]"));
    assert!(is_match("b9z", "[a-z]?[a-z]"));
    assert!(!is_match("a12", "[a-z]?[a-z]")); // ends with a digit
}

// Malformed classes
#[test]
fn test_character_class_edge_cases() {
    // Without a closing bracket, '[' is an ordinary character.
    assert!(is_match("[abc", "[abc"));

    // A single-member class
    assert!(is_match("a", "[a]"));
    assert!(!is_match("b", "[a]"));
}
