use compute_path_tracer::packages::glsl_preprocessor::{GlslPreprocessor, IncludeSource, PreprocessError};

fn source(directive: &str, label: &str, code: &str) -> IncludeSource {
    IncludeSource { directive: directive.to_string(), label: label.to_string(), code: code.to_string() }
}

fn run(code: &str, includes: &Vec<IncludeSource>) -> Result<String, PreprocessError> {
    assert!(GlslPreprocessor::directives_named(code));
    GlslPreprocessor::handle_hash(code, includes)
}

#[test]
fn plain_lines_pass_through() {
    let out = run("void main() {}\nint x;", &vec![]).unwrap();
    assert_eq!(out, "void main() {}\nint x;\n");
}

#[test]
fn empty_shader_gives_empty_output() {
    assert_eq!(run("", &vec![]).unwrap(), "");
}

#[test]
fn crlf_line_endings_become_lf() {
    assert_eq!(run("a\r\nb\r\n", &vec![]).unwrap(), "a\nb\n");
}

#[test]
fn other_directives_are_kept() {
    assert_eq!(run("#version 450\n#define X 1\n", &vec![]).unwrap(), "#version 450\n#define X 1\n");
}

#[test]
fn hash_anywhere_in_line_is_a_directive() {
    assert_eq!(run("x = 1; # note\n", &vec![]).unwrap(), "x = 1; # note\n");
    assert_eq!(run("x = 1; # test\n", &vec![]).unwrap(), "// Found #test\n");
}

#[test]
fn test_directive_becomes_comment() {
    assert_eq!(run("  #test\nend\n", &vec![]).unwrap(), "// Found #test\nend\n");
}

#[test]
fn include_is_expanded_once() {
    let table = vec![source("\"a.glsl\"", "\"dir/a.glsl\"", "float a;")];
    let out = run("#include \"a.glsl\"\nfoo\n#include \"a.glsl\"\n", &table).unwrap();
    assert_eq!(
        out,
        "// included \"dir/a.glsl\"\nfloat a;\n// end include\nfoo\n// ignored repeat include \"a.glsl\"\n"
    );
}

#[test]
fn missing_include_is_reported() {
    let table = vec![source("\"a.glsl\"", "\"dir/a.glsl\"", "float a;")];
    match run("#include \"a.glsl\"\n#include \"b.glsl\"\n", &table) {
        Err(PreprocessError::MissingInclude(t)) => assert_eq!(t, "\"b.glsl\""),
        Ok(_) => panic!("expected an error"),
    }
}

#[test]
fn first_source_for_a_target_wins() {
    let table = vec![source("x", "L1", "one"), source("x", "L2", "two")];
    assert_eq!(run("#include x", &table).unwrap(), "// included L1\none\n// end include\n");
}

#[test]
fn include_without_target() {
    let table = vec![source("", "E", "e")];
    assert_eq!(run("#include\n", &table).unwrap(), "// included E\ne\n// end include\n");
}

#[test]
fn requests_are_distinct_and_in_order() {
    let code = "#include b\n#include a\n#test\n#include b\n#include   c  extra\n";
    assert!(GlslPreprocessor::directives_named(code));
    let r = GlslPreprocessor::include_requests(code);
    assert_eq!(r, vec!["b".to_string(), "a".to_string(), "c".to_string()]);
}

#[test]
fn requests_of_plain_code_are_empty() {
    assert!(GlslPreprocessor::include_requests("void main() {}\n").is_empty());
}

#[test]
fn empty_directive_is_detected() {
    assert!(!GlslPreprocessor::directives_named("#\n"));
    assert!(!GlslPreprocessor::directives_named("ok\nx #   \n"));
    assert!(GlslPreprocessor::directives_named("ok\n#x\n"));
    assert!(GlslPreprocessor::directives_named(""));
}

#[test]
fn include_file_name_drops_quotes() {
    assert_eq!(GlslPreprocessor::include_file_name("\"common/a.glsl\""), "common/a.glsl");
    assert_eq!(GlslPreprocessor::include_file_name("plain"), "plain");
    assert_eq!(GlslPreprocessor::include_file_name("\"\""), "");
}

#[test]
fn requested_sources_are_enough() {
    let code = "#include a\nx\n#include b\n";
    let reqs = GlslPreprocessor::include_requests(code);
    let table: Vec<IncludeSource> = reqs.iter().map(|r| source(r, r, "c")).collect();
    assert!(GlslPreprocessor::handle_hash(code, &table).is_ok());
    let partial: Vec<IncludeSource> = table.into_iter().take(1).collect();
    assert!(GlslPreprocessor::handle_hash(code, &partial).is_err());
}

#[test]
fn unicode_whitespace_separates_words() {
    let table = vec![source("t", "L", "c")];
    assert_eq!(run("#include\u{3000}t\n", &table).unwrap(), "// included L\nc\n// end include\n");
}
