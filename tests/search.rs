use bm25_demo::corpus::{corpus_from_records, parse_corpus, LoadError, Recipe};
use bm25_demo::index::{present, SearchIndex};
use bm25_demo::ranking::{ranks_ahead, top_k};
use bm25_demo::session::{Phase, Session, ViewModel, RESULT_LIMIT};

const RECIPES: &str = "title,method\nPasta,boil noodle add sauce\nCake,mix flour sugar bake\n";

fn recipe(title: &str, method: &str) -> Recipe {
    Recipe { title: title.to_string(), method: method.to_string() }
}

fn ready_session(text: &str) -> Session {
    let mut s = Session::new();
    s.on_loaded(Ok(text.to_string()));
    assert_eq!(s.phase(), Phase::Ready);
    s
}

fn score(bits: u32) -> f32 {
    f32::from_bits(bits)
}

#[test]
fn pasta_and_cake_scenario() {
    let mut s = ready_session(RECIPES);
    assert_eq!(s.query(), "");
    assert!(s.results().is_empty());

    s.on_query_input("noodle".to_string());
    assert_eq!(s.query(), "noodle");
    assert_eq!(s.results().len(), 1);
    assert_eq!(s.results()[0].item_id, "Pasta");
    assert_eq!(s.results()[0].snippet, "boil noodle add sauce");
    assert_eq!(s.results()[0].position, 0);
    assert!(score(s.results()[0].score_bits) > 0.0);

    s.on_query_input("banana".to_string());
    assert!(s.results().is_empty());
    assert!(matches!(s.view_model(), ViewModel::NoResults));

    s.on_query_input(String::new());
    assert!(s.results().is_empty());
    assert!(matches!(s.view_model(), ViewModel::Hidden));
}

#[test]
fn failed_fetch_makes_queries_no_ops() {
    let mut s = Session::new();
    s.on_loaded(Err(LoadError::Unreachable));
    assert_eq!(s.phase(), Phase::Failed);
    assert_eq!(s.failure(), Some(LoadError::Unreachable));
    s.on_query_input("noodle".to_string());
    assert_eq!(s.phase(), Phase::Failed);
    assert_eq!(s.query(), "");
    assert!(s.results().is_empty());
    assert!(matches!(s.view_model(), ViewModel::Failed));
}

#[test]
fn non_text_resource_fails_session() {
    let mut s = Session::new();
    s.on_loaded(Err(LoadError::NotText));
    assert_eq!(s.phase(), Phase::Failed);
    assert_eq!(s.failure(), Some(LoadError::NotText));
}

#[test]
fn input_while_loading_is_ignored() {
    let mut s = Session::new();
    assert!(matches!(s.view_model(), ViewModel::Loading));
    s.on_query_input("noodle".to_string());
    assert_eq!(s.phase(), Phase::Loading);
    assert_eq!(s.query(), "");
    s.on_loaded(Ok(RECIPES.to_string()));
    assert_eq!(s.phase(), Phase::Ready);
    assert_eq!(s.query(), "");
    assert!(s.results().is_empty());
}

#[test]
fn second_load_is_ignored() {
    let mut s = ready_session(RECIPES);
    s.on_loaded(Err(LoadError::Unreachable));
    assert_eq!(s.phase(), Phase::Ready);
    assert_eq!(s.failure(), None);
}

#[test]
fn malformed_row_fails_whole_load() {
    let mut s = Session::new();
    s.on_loaded(Ok("title,method\nPasta,boil noodle\nCake\n".to_string()));
    assert_eq!(s.phase(), Phase::Failed);
    assert_eq!(s.failure(), Some(LoadError::MalformedRow(1)));
}

#[test]
fn missing_field_fails_whole_load() {
    assert_eq!(parse_corpus("title\nPasta\n").err(), Some(LoadError::MissingField(0)));
}

#[test]
fn header_row_is_not_a_recipe() {
    let corpus = parse_corpus(RECIPES).ok().unwrap();
    assert_eq!(corpus.len(), 2);
    assert_eq!(corpus[0].title, "Pasta");
    assert_eq!(corpus[0].method, "boil noodle add sauce");
    assert_eq!(corpus[1].title, "Cake");
    assert_eq!(corpus[1].method, "mix flour sugar bake");
}

#[test]
fn quoted_field_keeps_its_comma() {
    let corpus = parse_corpus("title,method\n\"Soup\",\"chop, stir\"\n").ok().unwrap();
    assert_eq!(corpus.len(), 1);
    assert_eq!(corpus[0].method, "chop, stir");
}

#[test]
fn records_become_recipes_in_order() {
    let records = vec![
        Some(vec!["A".to_string(), "one".to_string(), "extra".to_string()]),
        Some(vec!["B".to_string(), "two".to_string()]),
    ];
    let corpus = corpus_from_records(&records).ok().unwrap();
    assert_eq!(corpus.len(), 2);
    assert_eq!(corpus[0].title, "A");
    assert_eq!(corpus[0].method, "one");
    assert_eq!(corpus[1].title, "B");
}

#[test]
fn first_bad_record_decides_the_error() {
    let records = vec![
        Some(vec!["A".to_string(), "one".to_string()]),
        Some(vec!["B".to_string()]),
        None,
    ];
    assert_eq!(corpus_from_records(&records).err(), Some(LoadError::MissingField(1)));
    let records = vec![None, Some(vec!["B".to_string()])];
    assert_eq!(corpus_from_records(&records).err(), Some(LoadError::MalformedRow(0)));
}

#[test]
fn empty_corpus_answers_with_nothing() {
    let mut s = ready_session("title,method\n");
    s.on_query_input("noodle".to_string());
    assert!(s.results().is_empty());
    let index = SearchIndex::build(Vec::new());
    assert_eq!(index.len(), 0);
    assert!(index.evaluate("noodle", 5).is_empty());
}

#[test]
fn empty_query_returns_nothing() {
    let index = SearchIndex::build(vec![recipe("Pasta", "boil noodle add sauce")]);
    assert!(index.evaluate("", 5).is_empty());
}

#[test]
fn equal_scores_keep_corpus_order_and_limit_applies() {
    let corpus = vec![
        recipe("A", "apple pie"),
        recipe("B", "apple pie"),
        recipe("C", "apple pie"),
        recipe("D", "plain bread"),
    ];
    let index = SearchIndex::build(corpus);
    let r = index.evaluate("apple", 2);
    assert_eq!(r.len(), 2);
    assert_eq!(r[0].item_id, "A");
    assert_eq!(r[1].item_id, "B");
    assert_eq!(r[0].score_bits, r[1].score_bits);
    let all = index.evaluate("apple", 10);
    let ids: Vec<&str> = all.iter().map(|h| h.item_id.as_str()).collect();
    assert_eq!(ids, vec!["A", "B", "C"]);
}

#[test]
fn results_are_sorted_by_score() {
    let corpus = vec![
        recipe("Plain", "bread water salt"),
        recipe("Sweet", "cinnamon cinnamon sugar"),
        recipe("Spiced", "cinnamon bread"),
        recipe("Other", "rice beans"),
    ];
    let index = SearchIndex::build(corpus);
    let r = index.evaluate("cinnamon bread", RESULT_LIMIT);
    assert_eq!(r.len(), 3);
    for w in r.windows(2) {
        assert!(score(w[0].score_bits) >= score(w[1].score_bits));
    }
    assert_eq!(r[0].item_id, "Spiced");
    assert!(r.iter().all(|h| h.item_id != "Other"));
}

#[test]
fn evaluation_is_deterministic() {
    let index = SearchIndex::build(vec![
        recipe("A", "apple pie crust"),
        recipe("B", "apple tart"),
        recipe("C", "pear tart"),
    ]);
    let first = index.evaluate("apple tart", 5);
    let second = index.evaluate("apple tart", 5);
    assert_eq!(first.len(), second.len());
    for (a, b) in first.iter().zip(second.iter()) {
        assert_eq!(a.position, b.position);
        assert_eq!(a.score_bits, b.score_bits);
        assert_eq!(a.item_id, b.item_id);
    }
}

#[test]
fn results_follow_latest_query() {
    let mut s = ready_session(RECIPES);
    s.on_query_input("noodle".to_string());
    s.on_query_input("flour".to_string());
    assert_eq!(s.query(), "flour");
    assert_eq!(s.results().len(), 1);
    assert_eq!(s.results()[0].item_id, "Cake");
    match s.view_model() {
        ViewModel::Table(rows) => {
            assert_eq!(rows.len(), 1);
            assert_eq!(rows[0].item_id, "Cake");
            assert_eq!(rows[0].snippet, "mix flour sugar bake");
        }
        _ => panic!("expected a results table"),
    }
}

#[test]
fn top_k_orders_by_score_then_position() {
    let candidates = vec![(3u32, 10u32), (1, 20), (0, 10), (2, 5)];
    assert_eq!(top_k(&candidates, 3), vec![(1, 20), (0, 10), (3, 10)]);
    assert_eq!(top_k(&candidates, 10), vec![(1, 20), (0, 10), (3, 10), (2, 5)]);
    assert!(top_k(&candidates, 0).is_empty());
    assert!(top_k(&Vec::new(), 5).is_empty());
}

#[test]
fn ranking_order_compares_score_first() {
    assert!(ranks_ahead((5, 9), (0, 8)));
    assert!(ranks_ahead((0, 8), (1, 8)));
    assert!(!ranks_ahead((1, 8), (0, 8)));
    assert!(!ranks_ahead((1, 8), (1, 8)));
}

#[test]
fn present_attaches_recipes() {
    let corpus = vec![recipe("Pasta", "boil"), recipe("Cake", "bake")];
    let r = present(&corpus, &vec![(1, 7), (0, 3)]);
    assert_eq!(r.len(), 2);
    assert_eq!(r[0].item_id, "Cake");
    assert_eq!(r[0].snippet, "bake");
    assert_eq!(r[0].score_bits, 7);
    assert_eq!(r[1].item_id, "Pasta");
    assert_eq!(r[1].position, 0);
}
