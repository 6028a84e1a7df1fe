//! The recompute pipeline: owns the equation text, the range bound, and the
//! state derived from them, and rebuilds the derived state on every input
//! change.

use vstd::prelude::*;
use crate::evaluator::{construct_of, eval_of, is_nan_bits, Evaluator};
use crate::model::{
    ascending_by_one, lead_op_note, lemma_swept_len, next_cerr, next_eerr, next_points,
    num_samples, sample_x, stray_close_note, swept_points,
};
use crate::scan::{
    dip_then_completion, finds_dip_completion, finds_group_head_op, group_head_op, has_power_char,
};

verus! {

/// One plotted sample: the integer x-value and the bit pattern of the 64-bit
/// floating-point y-value the evaluator produced for it.
#[derive(Clone, Copy, PartialEq, Eq, Structural, Debug)]
pub struct Point {
    pub x: i64,
    pub y_bits: u64,
}

/// The state the evaluator is in: not yet built, built and ready to sample,
/// or failed to build (holding the construction error's description).
pub enum EvaluatorState {
    Unset,
    Ready(Evaluator),
    Failed(String),
}

/// The recompute pipeline. The equation text and the range bound are the
/// persisted inputs; the evaluator state, the point sequence and the
/// evaluation error are derived from them by [`Application::on_input_changed`]
/// and never persisted.
pub struct Application {
    pub equation_buffer: String,
    pub calculator_instance: EvaluatorState,
    pub calculation_err_result: Option<String>,
    pub equation_range: i64,
    pub calculation_result_points: Vec<Point>,
}

impl Application {
    /// The point sequence as `(x, y-bit-pattern)` pairs.
    pub open spec fn points_view(self) -> Seq<(int, u64)> {
        self.calculation_result_points@.map_values(|p: Point| (p.x as int, p.y_bits))
    }

    /// The construction error's text, if construction failed.
    pub open spec fn cerr_view(self) -> Option<Seq<char>> {
        match self.calculator_instance {
            EvaluatorState::Failed(m) => Some(m@),
            _ => None,
        }
    }

    /// The evaluation error's text, if a sweep failed.
    pub open spec fn eerr_view(self) -> Option<Seq<char>> {
        match self.calculation_err_result {
            Some(m) => Some(m@),
            None => None,
        }
    }

    /// Builds a pipeline from the persisted fields of a saved session. The
    /// derived state stays unset until the next input change.
    pub fn new(equation_text: String, range_bound: i64) -> (a: Application)
        requires
            0 <= range_bound,
        ensures
            a.equation_buffer@ == equation_text@,
            a.equation_range == range_bound,
            a.calculator_instance is Unset,
            a.calculation_err_result is None,
            a.points_view() == Seq::<(int, u64)>::empty(),
    {
        let a = Application {
            equation_buffer: equation_text,
            calculator_instance: EvaluatorState::Unset,
            calculation_err_result: None,
            equation_range: range_bound,
            calculation_result_points: Vec::new(),
        };
        proof {
            assert(a.points_view() =~= Seq::<(int, u64)>::empty());
        }
        a
    }

    /// Rebuilds the derived state from the given inputs: discards the old
    /// evaluator and evaluation error, constructs an evaluator from the text,
    /// and on success sweeps it over every integer sample in
    /// `[-range_bound, range_bound]`, ascending, stopping at the first
    /// failure. On construction failure the point sequence is left exactly as
    /// it was. The new points carry the model's length and x-values exactly;
    /// each y-value's bits are pinned to the model wherever the evaluator's
    /// result is one (no NaN payload, no power operator in the text).
    pub fn on_input_changed(&mut self, equation_text: String, range_bound: i64)
        requires
            0 <= range_bound,
        ensures
            final(self).equation_buffer@ == equation_text@,
            final(self).equation_range == range_bound,
            next_cerr(equation_text@) is Some ==> final(self).points_view() == old(
                self).points_view(),
            final(self).points_view().len() == next_points(
                old(self).points_view(),
                equation_text@,
                range_bound as int,
            ).len(),
            forall|k: int|
                0 <= k < final(self).points_view().len() ==> (
                #[trigger] final(self).points_view()[k]).0 == next_points(
                    old(self).points_view(),
                    equation_text@,
                    range_bound as int,
                )[k].0,
            forall|k: int|
                0 <= k < final(self).points_view().len() && !has_power_char(equation_text@)
                    && !is_nan_bits(
                    next_points(old(self).points_view(), equation_text@, range_bound as int)[k].1,
                ) ==> (#[trigger] final(self).points_view()[k]).1 == next_points(
                    old(self).points_view(),
                    equation_text@,
                    range_bound as int,
                )[k].1,
            final(self).cerr_view() == next_cerr(equation_text@),
            final(self).eerr_view() == next_eerr(equation_text@, range_bound as int),
            final(self).calculator_instance is Ready <==> next_cerr(equation_text@) is None,
            ascending_by_one(old(self).points_view()) ==> ascending_by_one(
                final(self).points_view(),
            ),
    {
        let ghost eq: Seq<char> = equation_text@;
        let ghost r: int = range_bound as int;
        self.equation_range = range_bound;
        self.calculation_err_result = None;
        if finds_dip_completion(&equation_text) {
            self.calculator_instance = EvaluatorState::Failed(
                "Syntax error: a closing bracket stands before its opening bracket.".to_owned(),
            );
            proof {
                assert(self.cerr_view() == Some(stray_close_note()));
            }
        } else {
            match Evaluator::construct(&equation_text) {
                Err(message) => {
                    self.calculator_instance = EvaluatorState::Failed(message);
                },
                Ok(ev) => {
                    if finds_group_head_op(&equation_text) {
                        self.calculator_instance = EvaluatorState::Ready(ev);
                        self.calculation_result_points = Vec::new();
                        self.calculation_err_result = Some(
                            "Syntax error: an operator opens the equation or a bracket group.".to_owned(),
                        );
                        proof {
                            assert(self.points_view() =~= Seq::<(int, u64)>::empty());
                            assert(self.eerr_view() == Some(lead_op_note()));
                        }
                    } else {
                        let mut points: Vec<Point> = Vec::new();
                        let mut failure: Option<String> = None;
                        let mut n: i64 = 0 - range_bound;
                        let mut running = true;
                        while running
                            invariant
                                0 <= range_bound,
                                r == range_bound as int,
                                ev.source() == eq,
                                construct_of(eq) is Ok,
                                !group_head_op(eq),
                                !dip_then_completion(eq),
                                running ==> 0 - range_bound <= n <= range_bound,
                                running ==> points@.len() == n + range_bound,
                                running ==> failure is None,
                                points@.len() <= num_samples(r),
                                forall|j: int|
                                    0 <= j < points@.len() ==> {
                                        &&& (#[trigger] points@[j]).x == sample_x(r, j)
                                        &&& eval_of(eq, sample_x(r, j)) is Ok
                                        &&& ((!has_power_char(eq) && !is_nan_bits(
                                            eval_of(eq, sample_x(r, j))->Ok_0,
                                        )) ==> points@[j].y_bits == eval_of(
                                            eq,
                                            sample_x(r, j),
                                        )->Ok_0)
                                    },
                                !running && failure is None ==> points@.len() == num_samples(r),
                                !running && failure is Some ==> {
                                    &&& points@.len() < num_samples(r)
                                    &&& eval_of(eq, sample_x(r, points@.len() as int)) is Err
                                    &&& failure->0@ == eval_of(
                                        eq,
                                        sample_x(r, points@.len() as int),
                                    )->Err_0
                                },
                            decreases range_bound - n + if running { 1int } else { 0int },
                        {
                            match ev.evaluate(n) {
                                Ok(bits) => {
                                    points.push(Point { x: n, y_bits: bits });
                                    if n == range_bound {
                                        running = false;
                                    } else {
                                        n = n + 1;
                                    }
                                },
                                Err(message) => {
                                    failure = Some(message);
                                    running = false;
                                },
                            }
                        }
                        proof {
                            assert forall|k: int| 0 <= k < points@.len() implies #[trigger] eval_of(
                                eq,
                                sample_x(r, k),
                            ) is Ok by {
                                assert(points@[k].x == sample_x(r, k));
                            }
                            lemma_swept_len(eq, r, points@.len() as int);
                        }
                        self.calculation_result_points = points;
                        self.calculation_err_result = failure;
                        self.calculator_instance = EvaluatorState::Ready(ev);
                        proof {
                            assert(self.points_view().len() == swept_points(eq, r).len());
                            assert forall|k: int| 0 <= k < self.points_view().len() implies (
                            #[trigger] self.points_view()[k]).0 == swept_points(eq, r)[k].0 by {
                                assert(points@[k].x == sample_x(r, k));
                            }
                            assert forall|k: int|
                                0 <= k < self.points_view().len() && !has_power_char(eq)
                                    && !is_nan_bits(swept_points(eq, r)[k].1) implies (
                            #[trigger] self.points_view()[k]).1 == swept_points(eq, r)[k].1 by {
                                assert(points@[k].x == sample_x(r, k));
                            }
                            assert(ascending_by_one(self.points_view())) by {
                                assert forall|k: int| 0 <= k < self.points_view().len() implies (
                                #[trigger] self.points_view()[k]).0 == self.points_view()[0].0
                                    + k by {
                                    assert(points@[k].x == sample_x(r, k));
                                    assert(points@[0].x == sample_x(r, 0));
                                }
                            }
                        }
                    }
                },
            }
        }
        self.equation_buffer = equation_text;
    }

    /// The current point sequence, one entry per successfully evaluated
    /// sample, in ascending x order.
    pub fn points(&self) -> (r: &Vec<Point>)
        ensures
            r@ == self.calculation_result_points@,
    {
        &self.calculation_result_points
    }

    /// The current construction error, if the equation text could not be
    /// turned into an evaluator.
    pub fn construction_error(&self) -> (r: Option<&String>)
        ensures
            r is Some <==> self.cerr_view() is Some,
            r is Some ==> r->0@ == self.cerr_view()->0,
    {
        match &self.calculator_instance {
            EvaluatorState::Failed(m) => Some(m),
            _ => None,
        }
    }

    /// The current evaluation error, if a sweep stopped at a failing sample.
    pub fn evaluation_error(&self) -> (r: Option<&String>)
        ensures
            r is Some <==> self.eerr_view() is Some,
            r is Some ==> r->0@ == self.eerr_view()->0,
    {
        match &self.calculation_err_result {
            Some(m) => Some(m),
            None => None,
        }
    }

    /// The equation text, as last handed in (persisted across sessions).
    pub fn equation_text(&self) -> (r: &String)
        ensures
            r@ == self.equation_buffer@,
    {
        &self.equation_buffer
    }

    /// The range bound, as last handed in (persisted across sessions).
    pub fn range_bound(&self) -> (r: i64)
        ensures
            r == self.equation_range,
    {
        self.equation_range
    }
}

impl Default for Application {
    /// A fresh pipeline: empty equation text, range bound 100, nothing
    /// derived yet.
    fn default() -> (a: Application)
        ensures
            a.equation_buffer@ == Seq::<char>::empty(),
            a.equation_range == 100,
            a.calculator_instance is Unset,
            a.calculation_err_result is None,
            a.points_view() == Seq::<(int, u64)>::empty(),
    {
        let a = Application {
            equation_buffer: String::new(),
            calculator_instance: EvaluatorState::Unset,
            calculation_err_result: None,
            equation_range: 100,
            calculation_result_points: Vec::new(),
        };
        proof {
            assert(a.points_view() =~= Seq::<(int, u64)>::empty());
        }
        a
    }
}

} // verus!
