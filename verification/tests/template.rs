//! Template conditionals and document rendering.

use clemp::render::render_agent_md;
use clemp::render::template_has_conditional;

fn table(files: &[(&str, &str)]) -> Vec<(String, String)> {
    files
        .iter()
        .map(|(a, b)| (a.to_string(), b.to_string()))
        .collect()
}

fn strings(names: &[&str]) -> Vec<String> {
    names.iter().map(|s| s.to_string()).collect()
}

fn render(
    langs: &[&str],
    mcps: &[&str],
    template: &str,
    lang_rules: &[(&str, &str)],
    mcp_rules: &[(&str, &str)],
    misc: &[(&str, &str)],
) -> Result<String, clemp::errors::Error> {
    render_agent_md(
        &strings(langs),
        &strings(mcps),
        template,
        &table(lang_rules),
        &table(mcp_rules),
        &table(misc),
    )
}

#[test]
fn template_conditional_double_quotes() {
    let tmpl = r#"{% if "swift" in languages %}swift stuff{% endif %}"#;
    assert!(template_has_conditional(tmpl, "swift"));
    assert!(!template_has_conditional(tmpl, "rust"));
}

#[test]
fn template_conditional_single_quotes() {
    let tmpl = "{% if 'rust' in languages %}rust stuff{% endif %}";
    assert!(template_has_conditional(tmpl, "rust"));
}

#[test]
fn template_conditional_with_dash_syntax() {
    let tmpl = r#"{%- if "go" in languages -%}go stuff{%- endif -%}"#;
    assert!(template_has_conditional(tmpl, "go"));
}

#[test]
fn template_conditional_no_match() {
    assert!(!template_has_conditional("no conditionals here", "rust"));
    assert!(!template_has_conditional("", "rust"));
}

#[test]
fn render_basic_with_lang_rules() {
    let rendered = render(
        &["typescript"],
        &[],
        "Languages: {% for l in lang %}{{ l }} {% endfor %}\n{{ lang_rules }}",
        &[("typescript", "Use strict mode")],
        &[],
        &[],
    )
    .unwrap();
    assert!(rendered.contains("typescript"));
    assert!(rendered.contains("<typescript-rules>"));
    assert!(rendered.contains("Use strict mode"));
}

#[test]
fn render_lang_dict_conditional() {
    let rendered = render(
        &["typescript"],
        &[],
        "{% if lang %}HAS_LANG{% endif %}{% if lang.typescript %}HAS_TS{% endif %}{% if lang.rust %}HAS_RUST{% endif %}",
        &[("typescript", "ts")],
        &[],
        &[],
    )
    .unwrap();
    assert!(rendered.contains("HAS_LANG"));
    assert!(rendered.contains("HAS_TS"));
    assert!(!rendered.contains("HAS_RUST"));
}

#[test]
fn render_mcp_dict_conditional() {
    let rendered = render(
        &[],
        &["maps"],
        "{% if mcp %}HAS_MCP{% endif %}{% if mcp.maps %}HAS_MAPS{% endif %}{% if mcp.docker %}HAS_DOCKER{% endif %}",
        &[],
        &[],
        &[],
    )
    .unwrap();
    assert!(rendered.contains("HAS_MCP"));
    assert!(rendered.contains("HAS_MAPS"));
    assert!(!rendered.contains("HAS_DOCKER"));
}

#[test]
fn render_no_lang_no_mcp() {
    let rendered = render(
        &[],
        &[],
        "{% if lang %}LANG{% endif %}{% if mcp %}MCP{% endif %}base",
        &[],
        &[],
        &[],
    )
    .unwrap();
    assert!(!rendered.contains("LANG"));
    assert!(!rendered.contains("MCP"));
    assert!(rendered.contains("base"));
}

#[test]
fn render_misc_plain_file() {
    let rendered = render(&[], &[], "{{ general }}", &[], &[], &[("general.md", "Be helpful")])
        .unwrap();
    assert!(rendered.contains("<general>"));
    assert!(rendered.contains("Be helpful"));
    assert!(rendered.contains("</general>"));
}

#[test]
fn render_misc_jinja_file() {
    let rendered = render(
        &["swift"],
        &[],
        "{{ lang_hygiene }}",
        &[],
        &[],
        &[("lang-hygiene.md.jinja", "{% if lang.swift %}Swift: check packages{% endif %}")],
    )
    .unwrap();
    assert!(rendered.contains("<lang-hygiene>"));
    assert!(rendered.contains("Swift: check packages"));
}

#[test]
fn render_misc_jinja_conditional_false() {
    let rendered = render(
        &[],
        &[],
        "{{ lang_hygiene }}",
        &[],
        &[],
        &[("lang-hygiene.md.jinja", "base{% if lang.swift %}\nSwift stuff{% endif %}")],
    )
    .unwrap();
    assert!(rendered.contains("<lang-hygiene>"));
    assert!(rendered.contains("base"));
    assert!(!rendered.contains("Swift stuff"));
}

#[test]
fn render_misc_underscore_filename() {
    let rendered = render(
        &[],
        &[],
        "{{ web_search_notes }}",
        &[],
        &[],
        &[("web-search-notes.md", "Search tips")],
    )
    .unwrap();
    assert!(rendered.contains("<web-search-notes>"));
    assert!(rendered.contains("Search tips"));
}

#[test]
fn render_misc_underscore_in_filename() {
    let rendered =
        render(&[], &[], "{{ my_notes }}", &[], &[], &[("my_notes.md", "Personal notes here")])
            .unwrap();
    assert!(rendered.contains("<my_notes>"));
    assert!(rendered.contains("Personal notes here"));
    assert!(rendered.contains("</my_notes>"));
}

#[test]
fn render_mcp_rules_included() {
    let rendered = render(
        &[],
        &["textbelt"],
        "{{ mcp_rules }}",
        &[],
        &[("textbelt", "Use textbelt for search")],
        &[],
    )
    .unwrap();
    assert!(rendered.contains("<textbelt-mcp-rules>"));
    assert!(rendered.contains("Use textbelt for search"));
}

#[test]
fn render_full_template() {
    let rendered = render(
        &["typescript"],
        &["textbelt"],
        "{{ general }}\n{%- if lang %}\n{{ style_general }}\n{{ lang_rules }}\n{%- endif %}\n{{ mcp_rules }}\n{{ CRITICAL }}",
        &[("typescript", "strict types")],
        &[("textbelt", "Use textbelt")],
        &[
            ("CRITICAL.md.jinja", "{% if lang %}Check REPOMAP{% endif %}"),
            ("general.md", "Be helpful"),
            ("style-general.md", "Write clean code"),
        ],
    )
    .unwrap();
    assert!(rendered.contains("<general>"));
    assert!(rendered.contains("Be helpful"));
    assert!(rendered.contains("<style-general>"));
    assert!(rendered.contains("Write clean code"));
    assert!(rendered.contains("<typescript-rules>"));
    assert!(rendered.contains("strict types"));
    assert!(rendered.contains("<textbelt-mcp-rules>"));
    assert!(rendered.contains("<CRITICAL>"));
    assert!(rendered.contains("Check REPOMAP"));
}

#[test]
fn render_ok_no_agent_md_dir() {
    let result = render(&[], &[], "just text", &[], &[], &[]).unwrap();
    assert_eq!(result, "just text");
}

#[test]
fn render_bad_main_template_errors() {
    let err = render(&[], &[], "{% if %}", &[], &[], &[]).unwrap_err();
    assert!(err.message().contains("AGENT.md.jinja"));
}

#[test]
fn render_bad_misc_fragment_errors_with_filename() {
    let err = render(&[], &[], "ok", &[], &[], &[("broken.md.jinja", "{% if %}")]).unwrap_err();
    let msg = err.message();
    assert!(msg.contains("Failed to render"));
    assert!(msg.contains("broken.md.jinja"));
}
