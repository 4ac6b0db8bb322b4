use cljindent::xformat;

#[test]
fn let_body_is_indented_past_the_operator() {
    assert_eq!(xformat("(let [a 1]\n(foo))"), "(let [a 1]\n  (foo))");
}

#[test]
fn call_arguments_line_up_under_the_first() {
    assert_eq!(xformat("(foo a\nb)"), "(foo a\n     b)");
}

#[test]
fn reader_macro_counts_as_one_special_argument() {
    assert_eq!(xformat("(if #'pred\n body)"), "(if #'pred\n  body)");
}

#[test]
fn blank_lines_are_kept() {
    assert_eq!(xformat("(do\n\n\n      a)"), "(do\n\n\n  a)");
    assert_eq!(xformat("a\n\n\nb"), "a\n\n\nb");
}

#[test]
fn definition_body_two_past_paren() {
    assert_eq!(xformat("(defn f [x]\nx)"), "(defn f [x]\n  x)");
    assert_eq!(xformat("(map inc (fn [x]\nx))"), "(map inc (fn [x]\n           x))");
}

#[test]
fn end_of_line_comment_is_padded() {
    let expected = format!("a\n{}; c\nb", " ".repeat(40));
    assert_eq!(xformat("a\n; c\n"), format!("a\n{}; c\n", " ".repeat(40)));
    assert_eq!(
        xformat("(foo a\n; c\nb)"),
        format!("(foo a\n{}; c\n     b)", " ".repeat(40))
    );
    assert_eq!(xformat("a\n; c\nb"), expected);
    assert_eq!(xformat("a\n;; c\nb"), "a\n;; c\nb");
}

#[test]
fn total_on_malformed_input() {
    assert_eq!(xformat(""), "");
    assert_eq!(xformat("("), "(");
    assert_eq!(xformat("(if #"), "(if #");
    assert_eq!(xformat("\"abc"), "\"abc");
    assert_eq!(xformat(": x"), ": x");
}

#[test]
fn single_line_is_unchanged() {
    let s = "(ns a.b (:require [c.d :as e])) (defn f [x] #{1 2} ^:m x 'y `(z ~w))";
    assert_eq!(xformat(s), s);
}

#[test]
fn vector_and_map_items_line_up() {
    assert_eq!(xformat("[a\nb]"), "[a\n b]");
    assert_eq!(xformat("{:a 1\n:b 2}"), "{:a 1\n :b 2}");
}

#[test]
fn keyword_call_and_data_list() {
    assert_eq!(xformat("(:a m\nn)"), "(:a m\n    n)");
    assert_eq!(xformat("(\"s\" 2\n3)"), "(\"s\" 2\n 3)");
}

#[test]
fn two_special_arguments() {
    assert_eq!(
        xformat("(condp = x\n1 :a\n:b)"),
        "(condp = x\n  1 :a\n  :b)"
    );
}

#[test]
fn formatting_twice_changes_nothing() {
    let inputs = [
        "(let [a 1]\n(foo))",
        "(foo a\nb)",
        "(if #'pred\n body)",
        "(defn f [x]\n  (let [y (inc x)]\n    (when y\n      (println y))))",
        "(ns a.b\n  (:require [c.d :as e]\n   [f.g :as h]))",
        "{:a 1\n:b [1\n2]}",
    ];
    for s in inputs.iter() {
        let once = xformat(s);
        assert_eq!(xformat(&once), once);
    }
}

#[test]
fn comment_after_operator_is_stable() {
    let once = xformat("(if;c\nx\ny)");
    assert_eq!(once, "(if;c\n    x\n  y)");
    assert_eq!(xformat(&once), once);
}

#[test]
fn special_body_on_operator_line() {
    assert_eq!(xformat("(do a\nb)"), "(do a\n  b)");
    assert_eq!(xformat("(if a b\nc)"), "(if a b\n  c)");
}

#[test]
fn newlines_and_other_characters_are_kept() {
    let inputs = [
        "(defn f [x]\n(let [y 1]\n\n  ; note\n(+ x y)))\n",
        "(if;c\nx\ny)",
        "a\n; c\nb  \n",
        "{:a 1,\n   :b \"s t\"}\n\n",
        "(foo a\n;; c\nb)",
    ];
    let keep = |s: &str| -> String { s.chars().filter(|c| !c.is_whitespace() && *c != ',').collect() };
    for s in inputs.iter() {
        let out = xformat(s);
        assert_eq!(out.matches('\n').count(), s.matches('\n').count());
        assert_eq!(keep(&out), keep(s));
    }
}
