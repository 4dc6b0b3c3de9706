use md_translate::cli::{translate_config, TranslateArgs};
use md_translate::markdown::renderer::u8_decimal;
use md_translate::markdown::HtmlRenderer;
use md_translate::translator::provider::{
    generate_url, translation_from_response, translation_prompt, RetryPolicy,
};
use md_translate::translator::TranslatorConfig;

#[test]
fn trim_removes_unicode_white_space_at_both_ends() {
    assert_eq!(translation_from_response("  a b \n"), "a b");
    assert_eq!(translation_from_response("\u{3000}x\u{a0}"), "x");
    assert_eq!(translation_from_response("   "), "");
}

#[test]
fn decimal_of_bytes() {
    assert_eq!(u8_decimal(0), "0");
    assert_eq!(u8_decimal(7), "7");
    assert_eq!(u8_decimal(42), "42");
    assert_eq!(u8_decimal(100), "100");
    assert_eq!(u8_decimal(255), "255");
}

#[test]
fn escape_replaces_each_special_character() {
    assert_eq!(HtmlRenderer::escape_html("<a href=\"x\">Tom & 'Jerry'</a>"),
        "&lt;a href=&quot;x&quot;&gt;Tom &amp; &#39;Jerry&#39;&lt;/a&gt;");
    assert_eq!(HtmlRenderer::escape_html(""), "");
    assert_eq!(HtmlRenderer::escape_html("&amp;"), "&amp;amp;");
}

#[test]
fn retry_waits_one_then_two_then_gives_up() {
    let p = RetryPolicy::standard();
    assert_eq!(p.after_failure(1), Some(1));
    assert_eq!(p.after_failure(2), Some(2));
    assert_eq!(p.after_failure(3), None);
    let long = RetryPolicy { max_attempts: 64 };
    assert_eq!(long.after_failure(10), Some(512));
    assert_eq!(long.after_failure(63), Some(1u64 << 62));
}

#[test]
fn prompt_url_and_response() {
    let prompt = translation_prompt("Hello");
    assert!(prompt.starts_with("You are a professional translator."));
    assert!(prompt.contains("INPUT TEXT:\nHello\n\nOUTPUT"));
    assert_eq!(generate_url("http://localhost:11434"), "http://localhost:11434/api/generate");
    assert_eq!(translation_from_response("\n  konnichiwa \n"), "konnichiwa");
}

#[test]
fn config_defaults_and_language_pair() {
    let c = TranslatorConfig::default();
    assert_eq!(c.source_lang, "en");
    assert_eq!(c.target_lang, "ja");
    assert!(c.use_cache);
    assert_eq!(c.parallel_requests, 3);
    assert!(c.show_progress);
    assert_eq!(c.lang_pair(), "en-ja");
}

#[test]
fn translate_command_settings() {
    let args = TranslateArgs {
        file: "in.md".to_string(),
        output: None,
        model: "m".to_string(),
        ollama_url: "http://x".to_string(),
        no_cache: true,
        format: "markdown".to_string(),
    };
    let c = translate_config(&args);
    assert!(!c.use_cache);
    assert!(c.show_progress);
    assert_eq!(c.parallel_requests, 3);
}

#[test]
fn render_exact_page_for_one_heading() {
    let html = HtmlRenderer::render(
        &[md_translate::markdown::Segment::Heading { level: 12, text: "<b>".to_string() }],
        "a&b",
    );
    assert!(html.contains("<title>a&amp;b</title>"));
    assert!(html.contains("<body>\n<h12><b></h12>\n\n</body>\n</html>"));
    assert!(html.ends_with("</html>"));
}
