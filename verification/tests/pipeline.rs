use graphing_calculator::pipeline::{Application, EvaluatorState};

fn points_as_pairs(app: &Application) -> Vec<(i64, f64)> {
    app.points().iter().map(|p| (p.x, f64::from_bits(p.y_bits))).collect()
}

#[test]
fn default_state() {
    let app = Application::default();
    assert_eq!(app.equation_text(), "");
    assert_eq!(app.range_bound(), 100);
    assert!(app.points().is_empty());
    assert!(app.construction_error().is_none());
    assert!(app.evaluation_error().is_none());
    assert!(matches!(app.calculator_instance, EvaluatorState::Unset));
}

#[test]
fn restore_waits_for_next_edit() {
    let app = Application::new("x + 1".to_string(), 5);
    assert_eq!(app.equation_text(), "x + 1");
    assert_eq!(app.range_bound(), 5);
    assert!(app.points().is_empty());
    assert!(matches!(app.calculator_instance, EvaluatorState::Unset));
}

#[test]
fn parabola_scenario() {
    let mut app = Application::default();
    app.on_input_changed("x*(x)".to_string(), 2);
    assert!(app.construction_error().is_none());
    assert!(app.evaluation_error().is_none());
    assert_eq!(
        points_as_pairs(&app),
        vec![(-2, 4.0), (-1, 1.0), (0, 0.0), (1, 1.0), (2, 4.0)]
    );
}

#[test]
fn full_sweep_has_one_point_per_sample() {
    let mut app = Application::default();
    app.on_input_changed("x + 1".to_string(), 1);
    assert!(app.evaluation_error().is_none());
    assert_eq!(points_as_pairs(&app), vec![(-1, 0.0), (0, 1.0), (1, 2.0)]);
}

#[test]
fn reciprocal_of_bare_variable_fails_evaluation() {
    // This evaluator cannot take a bare variable as a right operand, so the
    // sweep fails at its very first sample and keeps no points.
    let mut app = Application::default();
    app.on_input_changed("1 / x".to_string(), 1);
    assert!(app.construction_error().is_none());
    assert!(app.evaluation_error().is_some());
    assert!(app.points().is_empty());
}

#[test]
fn variable_as_right_operand_fails_evaluation() {
    let mut app = Application::default();
    app.on_input_changed("x * x".to_string(), 2);
    assert!(app.construction_error().is_none());
    assert!(app.evaluation_error().is_some());
    assert!(app.points().is_empty());
}

#[test]
fn division_by_zero_yields_infinity_not_an_error() {
    let mut app = Application::default();
    app.on_input_changed("1/(x)".to_string(), 1);
    assert!(app.construction_error().is_none());
    assert!(app.evaluation_error().is_none());
    let pts = points_as_pairs(&app);
    assert_eq!(pts.len(), 3);
    assert_eq!(pts[0], (-1, -1.0));
    assert_eq!(pts[1].0, 0);
    assert!(pts[1].1.is_infinite());
    assert_eq!(pts[2], (1, 1.0));
}

#[test]
fn malformed_text_keeps_prior_points() {
    let mut app = Application::default();
    app.on_input_changed("x + 1".to_string(), 1);
    let before = points_as_pairs(&app);
    assert_eq!(before.len(), 3);

    app.on_input_changed("x + ?".to_string(), 10);
    assert!(app.construction_error().is_some());
    assert!(app.evaluation_error().is_none());
    assert_eq!(points_as_pairs(&app), before);
    assert_eq!(app.equation_text(), "x + ?");
    assert_eq!(app.range_bound(), 10);
}

#[test]
fn malformed_first_attempt_leaves_points_empty() {
    let mut app = Application::default();
    app.on_input_changed("x + ?".to_string(), 10);
    assert!(app.construction_error().is_some());
    assert!(app.evaluation_error().is_none());
    assert!(app.points().is_empty());
}

#[test]
fn leading_operator_is_screened() {
    // An operator that opens the equation has no left operand; the raw
    // evaluator would subtract below zero while indexing, so the pipeline
    // reports the failure itself and attempts no sample.
    let mut app = Application::default();
    app.on_input_changed("-x".to_string(), 2);
    assert!(app.construction_error().is_none());
    assert!(app.evaluation_error().is_some());
    assert!(app.points().is_empty());
    assert!(matches!(app.calculator_instance, EvaluatorState::Ready(_)));
}

#[test]
fn operator_opening_a_bracket_group_is_screened() {
    let mut app = Application::default();
    app.on_input_changed("2*(-x)".to_string(), 2);
    assert!(app.construction_error().is_none());
    assert!(app.evaluation_error().is_some());
    assert!(app.points().is_empty());
}

#[test]
fn stray_close_without_completed_group_sweeps_normally() {
    // A stray closing bracket alone does not trip the evaluator: it drops the
    // bracket and plots y = x, so the pipeline hands the text through.
    let mut app = Application::default();
    app.on_input_changed(")x".to_string(), 1);
    assert!(app.construction_error().is_none());
    assert!(app.evaluation_error().is_none());
    assert_eq!(points_as_pairs(&app), vec![(-1, -1.0), (0, 0.0), (1, 1.0)]);
}

#[test]
fn stray_close_with_failing_body_reports_the_evaluator_error() {
    let mut app = Application::default();
    app.on_input_changed(")x*x".to_string(), 1);
    assert!(app.construction_error().is_none());
    let err = app.evaluation_error().expect("evaluation should fail").clone();
    assert!(err.contains("Expression can not be turned into a number"));
    assert!(app.points().is_empty());
}

#[test]
fn operator_in_a_dropped_group_sweeps_normally() {
    // The bracket group never completes, so the evaluator drops its content
    // unevaluated and plots y = x; the pipeline hands the text through.
    let mut app = Application::default();
    app.on_input_changed("x ( - 2".to_string(), 1);
    assert!(app.construction_error().is_none());
    assert!(app.evaluation_error().is_none());
    assert_eq!(points_as_pairs(&app), vec![(-1, -1.0), (0, 0.0), (1, 1.0)]);
}

#[test]
fn operator_heading_after_stray_close_is_screened() {
    // After the stray bracket is dropped, the '+' heads the token list with
    // no left operand; the raw evaluator would subtract below index zero.
    let mut app = Application::default();
    app.on_input_changed(")+x".to_string(), 2);
    assert!(app.construction_error().is_none());
    assert!(app.evaluation_error().is_some());
    assert!(app.points().is_empty());
    assert!(matches!(app.calculator_instance, EvaluatorState::Ready(_)));
}

#[test]
fn stray_closing_bracket_is_screened() {
    // The raw evaluator inserts at an out-of-range index on this text; the
    // pipeline reports it as a construction failure instead.
    let mut app = Application::default();
    app.on_input_changed(")((x)".to_string(), 1);
    assert!(app.construction_error().is_some());
    assert!(app.evaluation_error().is_none());
    assert!(app.points().is_empty());
}

#[test]
fn recompute_is_idempotent() {
    let mut app = Application::default();
    app.on_input_changed("x*(x)".to_string(), 2);
    let first_points = points_as_pairs(&app);
    let first_cerr = app.construction_error().cloned();
    let first_eerr = app.evaluation_error().cloned();
    app.on_input_changed("x*(x)".to_string(), 2);
    assert_eq!(points_as_pairs(&app), first_points);
    assert_eq!(app.construction_error().cloned(), first_cerr);
    assert_eq!(app.evaluation_error().cloned(), first_eerr);
}

#[test]
fn recompute_is_idempotent_on_malformed_text() {
    let mut app = Application::default();
    app.on_input_changed("x + 1".to_string(), 1);
    app.on_input_changed("x + ?".to_string(), 3);
    let first_points = points_as_pairs(&app);
    let first_cerr = app.construction_error().cloned();
    app.on_input_changed("x + ?".to_string(), 3);
    assert_eq!(points_as_pairs(&app), first_points);
    assert_eq!(app.construction_error().cloned(), first_cerr);
    assert!(app.evaluation_error().is_none());
}

#[test]
fn x_values_ascend_by_one_from_minus_bound() {
    let mut app = Application::default();
    app.on_input_changed("x".to_string(), 3);
    let pts = app.points();
    assert_eq!(pts.len(), 7);
    for (k, p) in pts.iter().enumerate() {
        assert_eq!(p.x, k as i64 - 3);
        assert_eq!(f64::from_bits(p.y_bits), p.x as f64);
    }
}

#[test]
fn empty_text_fails_at_first_sample() {
    let mut app = Application::default();
    app.on_input_changed(String::new(), 2);
    assert!(app.construction_error().is_none());
    assert!(app.evaluation_error().is_some());
    assert!(app.points().is_empty());
}

#[test]
fn zero_range_sweeps_a_single_sample() {
    let mut app = Application::default();
    app.on_input_changed("x + 2".to_string(), 0);
    assert!(app.evaluation_error().is_none());
    assert_eq!(points_as_pairs(&app), vec![(0, 2.0)]);
}
