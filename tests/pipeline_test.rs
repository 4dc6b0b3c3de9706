use md_translate::markdown::parser::{segments_from_events, MdEvent};
use md_translate::markdown::Segment;
use md_translate::translator::{
    reconstruct_markdown, Coordinator, MemoryCache, Step, TranslatorConfig,
};

const IDENTITY: &str = "stub";

fn tagged(text: &str) -> Result<String, String> {
    Ok(format!("[T:{}]", text))
}

/// Drives a run to its end; `fifo` picks which call completes next.
fn run_units(
    segments: Vec<Segment>,
    use_cache: bool,
    capacity: usize,
    cache: &mut MemoryCache,
    provider: &mut dyn FnMut(&str) -> Result<String, String>,
    fifo: bool,
) -> (Vec<Segment>, usize, usize) {
    let config = TranslatorConfig {
        source_lang: "en".to_string(),
        target_lang: "ja".to_string(),
        use_cache,
        parallel_requests: capacity,
        show_progress: false,
    };
    let lang_pair = config.lang_pair();
    let mut run = Coordinator::new(segments, use_cache, capacity);
    let mut flying = std::collections::VecDeque::new();
    let mut most = 0;
    let mut rounds = 0;
    let mut started_round = false;
    loop {
        match run.next_step() {
            Step::Probe(p) => {
                let hit = cache.get(&p.text, IDENTITY, &lang_pair);
                run.answer_probe(hit);
            }
            Step::Dispatch(job) => {
                if !started_round {
                    rounds += 1;
                    started_round = true;
                }
                flying.push_back(job);
                most = most.max(flying.len());
            }
            Step::Wait => {
                started_round = false;
                // a round ends when every call in flight has returned
                while let Some(job) = if fifo { flying.pop_front() } else { flying.pop_back() } {
                    let outcome = provider(&job.source_text);
                    if let Some((s, t)) = run.complete(job.index, outcome) {
                        cache.set(&s, &t, IDENTITY, &lang_pair).expect("Set failed");
                    }
                }
            }
            Step::Done => break,
        }
    }
    (run.finish(), most, rounds)
}

fn scenario_units() -> Vec<Segment> {
    vec![
        Segment::Heading { level: 1, text: "H1".to_string() },
        Segment::Paragraph { text: "P1".to_string() },
        Segment::CodeBlock { language: None, code: "c".to_string() },
        Segment::Paragraph { text: "P2".to_string() },
    ]
}

fn scenario_expected() -> Vec<Segment> {
    vec![
        Segment::Heading { level: 1, text: "[T:H1]".to_string() },
        Segment::Paragraph { text: "[T:P1]".to_string() },
        Segment::CodeBlock { language: None, code: "c".to_string() },
        Segment::Paragraph { text: "[T:P2]".to_string() },
    ]
}

#[test]
fn scenario_first_run_translates_text_units() {
    let mut cache = MemoryCache::new();
    let (out, _, _) = run_units(scenario_units(), true, 3, &mut cache, &mut tagged, true);
    assert_eq!(out, scenario_expected());
    let stats = cache.stats();
    // three text units, none cached yet
    assert_eq!(stats.cache_misses, 3);
    assert_eq!(stats.cache_hits, 0);
}

#[test]
fn scenario_second_run_is_served_by_cache() {
    let mut cache = MemoryCache::new();
    let (first, _, _) = run_units(scenario_units(), true, 3, &mut cache, &mut tagged, true);
    let before = cache.stats();
    let mut never = |_: &str| -> Result<String, String> { panic!("the provider is not called") };
    let (second, _, _) = run_units(scenario_units(), true, 3, &mut cache, &mut never, true);
    let after = cache.stats();
    assert_eq!(second, first);
    assert_eq!(after.cache_hits - before.cache_hits, 3);
    assert_eq!(after.cache_misses - before.cache_misses, 0);
}

#[test]
fn kinds_and_order_survive_any_completion_order() {
    let units = vec![
        Segment::Heading { level: 2, text: "a".to_string() },
        Segment::HorizontalRule,
        Segment::Paragraph { text: "b".to_string() },
        Segment::CodeBlock { language: Some("rust".to_string()), code: "x".to_string() },
        Segment::BlockQuote { content: "q".to_string() },
        Segment::List { ordered: true, items: vec!["i".to_string()] },
        Segment::Paragraph { text: "c".to_string() },
    ];
    for fifo in [true, false] {
        for capacity in [1, 2, 5] {
            let mut cache = MemoryCache::new();
            let (out, most, _) =
                run_units(units.clone(), false, capacity, &mut cache, &mut tagged, fifo);
            assert_eq!(out.len(), units.len());
            assert!(most <= capacity);
            assert_eq!(out[0], Segment::Heading { level: 2, text: "[T:a]".to_string() });
            assert_eq!(out[1], Segment::HorizontalRule);
            assert_eq!(out[2], Segment::Paragraph { text: "[T:b]".to_string() });
            assert_eq!(out[3], units[3]);
            assert_eq!(out[4], Segment::BlockQuote { content: "[T:q]".to_string() });
            assert_eq!(out[5], units[5]);
            assert_eq!(out[6], Segment::Paragraph { text: "[T:c]".to_string() });
        }
    }
}

#[test]
fn one_failure_leaves_only_its_unit_untranslated() {
    let units = vec![
        Segment::Paragraph { text: "ok1".to_string() },
        Segment::Paragraph { text: "bad".to_string() },
        Segment::Paragraph { text: "ok2".to_string() },
    ];
    let mut cache = MemoryCache::new();
    let mut provider = |t: &str| {
        if t == "bad" {
            Err("timeout".to_string())
        } else {
            tagged(t)
        }
    };
    let (out, _, _) = run_units(units, true, 2, &mut cache, &mut provider, false);
    assert_eq!(
        out,
        vec![
            Segment::Paragraph { text: "[T:ok1]".to_string() },
            Segment::Paragraph { text: "bad".to_string() },
            Segment::Paragraph { text: "[T:ok2]".to_string() },
        ]
    );
    // the failed unit was not cached
    assert_eq!(cache.get("bad", IDENTITY, "en-ja"), None);
    assert_eq!(cache.get("ok1", IDENTITY, "en-ja"), Some("[T:ok1]".to_string()));
}

#[test]
fn calls_go_out_in_rounds_of_capacity() {
    let units: Vec<Segment> =
        (0..7).map(|i| Segment::Paragraph { text: format!("p{}", i) }).collect();
    let mut cache = MemoryCache::new();
    let (out, most, rounds) = run_units(units, false, 3, &mut cache, &mut tagged, true);
    assert_eq!(out.len(), 7);
    assert_eq!(most, 3);
    assert_eq!(rounds, 3);
}

#[test]
fn empty_document_finishes_at_once() {
    let mut run = Coordinator::new(Vec::new(), true, 3);
    assert!(matches!(run.next_step(), Step::Done));
    assert!(run.finish().is_empty());
}

#[test]
fn repeated_text_is_translated_the_same_way() {
    let units = vec![
        Segment::Paragraph { text: "same".to_string() },
        Segment::Paragraph { text: "same".to_string() },
    ];
    let mut cache = MemoryCache::new();
    let (first, _, _) = run_units(units.clone(), true, 1, &mut cache, &mut tagged, true);
    let (second, _, _) = run_units(units, true, 1, &mut cache, &mut tagged, true);
    assert_eq!(first, second);
    assert_eq!(first[1], Segment::Paragraph { text: "[T:same]".to_string() });
}

#[test]
fn segments_from_events_follows_the_event_stream() {
    let events = vec![
        MdEvent::HeadingStart(2),
        MdEvent::Text("  Title ".to_string()),
        MdEvent::HeadingEnd,
        MdEvent::ParagraphStart,
        MdEvent::Text("use ".to_string()),
        MdEvent::Code("x".to_string()),
        MdEvent::Other,
        MdEvent::ParagraphEnd,
        MdEvent::Text("stray".to_string()),
        MdEvent::CodeBlockStart(Some("sh".to_string())),
        MdEvent::Text(" ls\n".to_string()),
        MdEvent::CodeBlockEnd,
        MdEvent::Rule,
        MdEvent::HeadingEnd,
    ];
    assert_eq!(
        segments_from_events(&events),
        vec![
            Segment::Heading { level: 2, text: "Title".to_string() },
            Segment::Paragraph { text: "use `x`".to_string() },
            Segment::CodeBlock { language: Some("sh".to_string()), code: " ls\n".to_string() },
            Segment::HorizontalRule,
        ]
    );
}

#[test]
fn reconstruct_writes_each_variant() {
    let units = vec![
        Segment::Heading { level: 3, text: "T".to_string() },
        Segment::Paragraph { text: "p".to_string() },
        Segment::CodeBlock { language: Some("rs".to_string()), code: "x".to_string() },
        Segment::CodeBlock { language: None, code: "y".to_string() },
        Segment::List { ordered: false, items: vec!["a".to_string(), "b".to_string()] },
        Segment::List { ordered: true, items: vec!["c".to_string()] },
        Segment::BlockQuote { content: "q".to_string() },
        Segment::HorizontalRule,
    ];
    assert_eq!(
        reconstruct_markdown(&units),
        "### T\n\np\n\n```rs\nx\n```\n\n```\ny\n```\n\n- a\n- b\n\n1. c\n\n> q\n\n---\n\n"
    );
    assert_eq!(reconstruct_markdown(&[]), "");
    let empty_list = vec![
        Segment::List { ordered: false, items: Vec::new() },
        Segment::Paragraph { text: "after".to_string() },
    ];
    assert_eq!(reconstruct_markdown(&empty_list), "\n\nafter\n\n");
}
