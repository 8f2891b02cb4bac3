use vikos::cost::{LeastAbsoluteDeviation, LeastSquares, MaxLikelihood};
use vikos::model::{Linear, Logistic};
use vikos::scalar::Scalar;
use vikos::teacher::{Adagard, GradientDescent, GradientDescentAl, Momentum, Nesterov};
use vikos::{learn_history, Model, Teacher};

/// A double precision number as the scalar of the library.
#[derive(Clone, Copy, Debug, PartialEq, PartialOrd)]
struct R(f64);

impl Scalar for R {
    fn from_count(n: usize) -> Self {
        R(n as f64)
    }

    fn add(self, rhs: Self) -> Self {
        R(self.0 + rhs.0)
    }

    fn sub(self, rhs: Self) -> Self {
        R(self.0 - rhs.0)
    }

    fn mul(self, rhs: Self) -> Self {
        R(self.0 * rhs.0)
    }

    fn div(self, rhs: Self) -> Self {
        R(self.0 / rhs.0)
    }

    fn neg(self) -> Self {
        R(-self.0)
    }

    fn abs(self) -> Self {
        R(self.0.abs())
    }

    fn sqrt(self) -> Self {
        R(self.0.sqrt())
    }

    fn exp(self) -> Self {
        R(self.0.exp())
    }

    fn ln(self) -> Self {
        R(self.0.ln())
    }

    fn lt(self, rhs: Self) -> bool {
        self.0 < rhs.0
    }
}

fn line() -> [(R, R); 3] {
    [(R(0.0), R(3.0)), (R(1.0), R(4.0)), (R(2.0), R(5.0))]
}

fn within(model: &Linear<R>) -> bool {
    model.m.0 < 1.1 && model.m.0 > 0.9 && model.c.0 < 3.1 && model.c.0 > 2.9
}

#[test]
fn gradient_descent_one_event() {
    let teacher = GradientDescent { learning_rate: R(0.25) };
    let mut model = Linear { m: R(1.0), c: R(0.0) };
    let mut training = teacher.new_training(&model);
    teacher.teach_event(&mut training, &mut model, &LeastSquares {}, &R(2.0), R(5.0));
    assert_eq!(model.m, R(4.0));
    assert_eq!(model.c, R(1.5));
}

#[test]
fn gradient_descent_derives_the_model_at_the_coefficients_of_the_moment() {
    let teacher = GradientDescent { learning_rate: R(1.0) };
    let mut model = Logistic::<R>::default();
    teacher.teach_event(&mut (), &mut model, &LeastSquares {}, &R(1.0), R(1.0));
    let outer = 2.0 * (0.5 - 1.0);
    let m = 0.0 - 1.0 * (outer * (-0.5 * (1.0 - 0.5) * 1.0));
    assert_eq!(m, -0.25);
    let p = 1.0 / (1.0 + (m * 1.0 + 0.0f64).exp());
    let c = 0.0 - 1.0 * (outer * (-p * (1.0 - p) * 1.0));
    assert_eq!(*model.coefficient(0), R(m));
    assert_eq!(*model.coefficient(1), R(c));
}

#[test]
fn gradient_descent_with_least_absolute_deviation() {
    let teacher = GradientDescent { learning_rate: R(0.5) };
    let mut model = R(1.0);
    teacher.teach_event(&mut (), &mut model, &LeastAbsoluteDeviation {}, &(), R(4.0));
    assert_eq!(model, R(1.5));
    teacher.teach_event(&mut (), &mut model, &LeastAbsoluteDeviation {}, &(), R(1.0));
    assert_eq!(model, R(1.0));
    teacher.teach_event(&mut (), &mut model, &LeastAbsoluteDeviation {}, &(), R(1.0));
    assert_eq!(model, R(1.0));
}

#[test]
fn annealed_gradient_descent_two_events() {
    let teacher = GradientDescentAl { l0: R(1.0), t: R(1.0) };
    let mut model = R(0.0);
    let mut training = teacher.new_training(&model);
    assert_eq!(training, 0);
    teacher.teach_event(&mut training, &mut model, &LeastSquares {}, &(), R(1.0));
    assert_eq!(model, R(2.0));
    assert_eq!(training, 1);
    teacher.teach_event(&mut training, &mut model, &LeastSquares {}, &(), R(1.0));
    assert_eq!(model, R(1.0));
    assert_eq!(training, 2);
}

#[test]
fn momentum_two_events() {
    let teacher = Momentum { l0: R(1.0), t: R(1.0), inertia: R(0.5) };
    let mut model = R(0.0);
    let mut training = teacher.new_training(&model);
    assert_eq!(training, (0, vec![R(0.0)]));
    teacher.teach_event(&mut training, &mut model, &LeastSquares {}, &(), R(1.0));
    assert_eq!(model, R(2.0));
    assert_eq!(training, (1, vec![R(2.0)]));
    teacher.teach_event(&mut training, &mut model, &LeastSquares {}, &(), R(1.0));
    assert_eq!(model, R(2.0));
    assert_eq!(training, (2, vec![R(0.0)]));
    teacher.teach_event(&mut training, &mut model, &LeastSquares {}, &(), R(1.0));
    let rate = 1.0 / (1.0 + 2.0 / 1.0);
    let velocity = 0.5 * 0.0 - rate * (2.0 * 1.0);
    assert_eq!(training, (3, vec![R(velocity)]));
    assert_eq!(model, R(2.0 + velocity));
}

#[test]
fn momentum_moves_each_coefficient_by_its_own_velocity() {
    let teacher = Momentum { l0: R(0.25), t: R(4.0), inertia: R(0.5) };
    let mut model = Linear { m: R(1.0), c: R(0.0) };
    let mut training = (0, vec![R(8.0), R(-4.0)]);
    teacher.teach_event(&mut training, &mut model, &LeastSquares {}, &R(2.0), R(5.0));
    assert_eq!(training, (1, vec![R(7.0), R(-0.5)]));
    assert_eq!(model.m, R(8.0));
    assert_eq!(model.c, R(-0.5));
}

#[test]
fn nesterov_two_events() {
    let teacher = Nesterov { l0: R(1.0), t: R(1.0), inertia: R(0.5) };
    let mut model = R(0.0);
    let mut training = teacher.new_training(&model);
    assert_eq!(training, (0, vec![R(0.0)]));
    teacher.teach_event(&mut training, &mut model, &LeastSquares {}, &(), R(1.0));
    assert_eq!(model, R(2.0));
    assert_eq!(training, (1, vec![R(2.0)]));
    teacher.teach_event(&mut training, &mut model, &LeastSquares {}, &(), R(1.0));
    assert_eq!(model, R(3.0));
    assert_eq!(training, (2, vec![R(0.0)]));
}

#[test]
fn nesterov_looks_ahead_on_every_coefficient_before_it_descends() {
    let teacher = Nesterov { l0: R(0.25), t: R(4.0), inertia: R(0.5) };
    let mut model = Linear { m: R(1.0), c: R(0.0) };
    let mut training = (0, vec![R(8.0), R(-4.0)]);
    teacher.teach_event(&mut training, &mut model, &LeastSquares {}, &R(2.0), R(5.0));
    assert_eq!(model.m, R(12.0));
    assert_eq!(model.c, R(-2.5));
    assert_eq!(training, (1, vec![R(7.0), R(-0.5)]));
}

#[test]
fn nesterov_derives_the_model_after_looking_ahead() {
    let teacher = Nesterov { l0: R(1.0), t: R(1.0), inertia: R(0.5) };
    let mut model = Logistic::<R>::default();
    let mut training = (0, vec![R(1.0), R(0.0)]);
    teacher.teach_event(&mut training, &mut model, &LeastSquares {}, &R(1.0), R(1.0));
    let outer = 2.0 * (0.5 - 1.0);
    let ahead = 0.0 + 1.0;
    let p = 1.0 / (1.0 + (ahead * 1.0 + 0.0f64).exp());
    let delta = -1.0 * (outer * (-p * (1.0 - p) * 1.0));
    let m = ahead + delta;
    assert_eq!(*model.coefficient(0), R(m));
    assert_eq!(training.1[0], R(0.5 * 1.0 + delta));
    let p = 1.0 / (1.0 + (m * 1.0 + 0.0f64).exp());
    let delta = -1.0 * (outer * (-p * (1.0 - p) * 1.0));
    assert_eq!(*model.coefficient(1), R(0.0 + delta));
    assert_eq!(training.1[1], R(0.5 * 0.0 + delta));
    assert_eq!(training.0, 1);
}

#[test]
fn adagrad_two_events() {
    let teacher = Adagard { learning_rate: R(1.0), epsilon: R(4.0) };
    let mut model = R(0.0);
    let mut training = teacher.new_training(&model);
    assert_eq!(training, vec![R(4.0)]);
    teacher.teach_event(&mut training, &mut model, &LeastSquares {}, &(), R(3.0));
    assert_eq!(model, R(3.0));
    assert_eq!(training, vec![R(40.0)]);
    teacher.teach_event(&mut training, &mut model, &LeastSquares {}, &(), R(4.0));
    assert_eq!(model, R(3.0 + 2.0 / 40.0f64.sqrt()));
    assert_eq!(training, vec![R(44.0)]);
}

#[test]
fn adagrad_keeps_a_sum_for_each_coefficient() {
    let teacher = Adagard { learning_rate: R(0.5), epsilon: R(16.0) };
    let mut model = Linear { m: R(1.0), c: R(0.0) };
    let mut training = teacher.new_training(&model);
    assert_eq!(training, vec![R(16.0), R(16.0)]);
    teacher.teach_event(&mut training, &mut model, &LeastSquares {}, &R(2.0), R(5.0));
    assert_eq!(model.m, R(2.5));
    assert_eq!(model.c, R(0.75));
    assert_eq!(training, vec![R(160.0), R(52.0)]);
}

#[test]
fn training_keeps_one_entry_for_every_coefficient() {
    let mut model = Linear { m: [R(0.0), R(0.0), R(0.0)], c: R(0.0) };
    let x = [R(1.0), R(2.0), R(3.0)];
    let momentum = Momentum { l0: R(0.01), t: R(10.0), inertia: R(0.9) };
    let mut training = momentum.new_training(&model);
    assert_eq!(training, (0, vec![R(0.0); 4]));
    for event in 1..10 {
        momentum.teach_event(&mut training, &mut model, &LeastSquares {}, &x, R(1.0));
        assert_eq!(training.0, event);
        assert_eq!(training.1.len(), model.num_coefficients());
    }
    let nesterov = Nesterov { l0: R(0.01), t: R(10.0), inertia: R(0.9) };
    let mut training = nesterov.new_training(&model);
    assert_eq!(training, (0, vec![R(0.0); 4]));
    for event in 1..10 {
        nesterov.teach_event(&mut training, &mut model, &LeastSquares {}, &x, R(1.0));
        assert_eq!(training.0, event);
        assert_eq!(training.1.len(), model.num_coefficients());
    }
    let adagrad = Adagard { learning_rate: R(0.01), epsilon: R(0.5) };
    let mut training = adagrad.new_training(&model);
    assert_eq!(training, vec![R(0.5); 4]);
    for _ in 1..10 {
        adagrad.teach_event(&mut training, &mut model, &LeastSquares {}, &x, R(1.0));
        assert_eq!(training.len(), model.num_coefficients());
    }
    assert_eq!(model.num_coefficients(), 4);
}

#[test]
fn one_model_goes_from_teacher_to_teacher() {
    let mut model = Linear { m: R(0.0), c: R(0.0) };
    let descent = GradientDescent { learning_rate: R(0.2) };
    learn_history(&descent, &LeastSquares {}, &mut model, line().iter().cycle().take(5).cloned());
    let so_far = model.clone();
    assert!(so_far.m != R(0.0));
    let momentum = Momentum { l0: R(0.05), t: R(100.0), inertia: R(0.5) };
    let training = momentum.new_training(&model);
    assert_eq!(model.m, so_far.m);
    assert_eq!(model.c, so_far.c);
    assert_eq!(training, (0, vec![R(0.0), R(0.0)]));
    learn_history(&momentum, &LeastSquares {}, &mut model, line().iter().cycle().take(200).cloned());
    assert!(within(&model));
}

#[test]
fn teachers_are_interchangeable() {
    let cost = LeastSquares {};

    let mut model = Linear { m: R(0.0), c: R(0.0) };
    let teacher = GradientDescent { learning_rate: R(0.2) };
    learn_history(&teacher, &cost, &mut model, line().iter().cycle().take(20).cloned());
    assert!(within(&model));

    let mut model = Linear { m: R(0.0), c: R(0.0) };
    let teacher = Momentum { l0: R(0.05), t: R(100.0), inertia: R(0.5) };
    learn_history(&teacher, &cost, &mut model, line().iter().cycle().take(200).cloned());
    assert!(within(&model));

    let mut model = Linear { m: R(0.0), c: R(0.0) };
    let teacher = Nesterov { l0: R(0.05), t: R(100.0), inertia: R(0.5) };
    learn_history(&teacher, &cost, &mut model, line().iter().cycle().take(200).cloned());
    assert!(within(&model));

    let mut model = Linear { m: R(0.0), c: R(0.0) };
    let teacher = Adagard { learning_rate: R(1.0), epsilon: R(1.0) };
    learn_history(&teacher, &cost, &mut model, line().iter().cycle().take(400).cloned());
    assert!(within(&model));
}

#[test]
fn learn_history_teaches_every_event_in_order() {
    let events = [
        ([R(2.7), R(2.5)], false),
        ([R(7.6), R(2.7)], true),
        ([R(1.4), R(2.3)], false),
        ([R(8.6), R(-0.2)], true),
    ];
    let teacher = Nesterov { l0: R(0.3), t: R(2.0), inertia: R(0.9) };
    let cost = MaxLikelihood {};

    let mut learned = Logistic::<[R; 2]>::default();
    learn_history(&teacher, &cost, &mut learned, events.iter().cloned());

    let mut taught = Logistic::<[R; 2]>::default();
    let mut training = teacher.new_training(&taught);
    for (features, truth) in events.iter() {
        teacher.teach_event(&mut training, &mut taught, &cost, features, *truth);
    }
    assert_eq!(training.0, 4);

    let mut backwards = Logistic::<[R; 2]>::default();
    learn_history(&teacher, &cost, &mut backwards, events.iter().rev().cloned());

    let mut differs = false;
    for index in 0..3 {
        assert_eq!(*learned.coefficient(index), *taught.coefficient(index));
        differs = differs || *learned.coefficient(index) != *backwards.coefficient(index);
    }
    assert!(differs);
}

#[test]
fn learn_history_of_no_event_leaves_the_model() {
    let teacher = GradientDescentAl { l0: R(0.3), t: R(4.0) };
    let mut model = Linear { m: R(1.5), c: R(-2.0) };
    let none: Vec<(R, R)> = Vec::new();
    learn_history(&teacher, &LeastSquares {}, &mut model, none.into_iter());
    assert_eq!(model.m, R(1.5));
    assert_eq!(model.c, R(-2.0));
}

#[test]
fn learn_history_takes_events_as_they_come() {
    let teacher = GradientDescent { learning_rate: R(0.5) };
    let mut model = R(0.0);
    let mut produced = 0;
    let history = (0..3).map(|n| {
        produced += 1;
        ((), R(n as f64))
    });
    learn_history(&teacher, &LeastSquares {}, &mut model, history);
    assert_eq!(produced, 3);
    assert_eq!(model, R(2.0));
}

fn numbers() -> [((), R); 7] {
    [1.0, 3.0, 4.0, 7.0, 8.0, 11.0, 29.0].map(|truth| ((), R(truth)))
}

#[test]
fn every_teacher_finds_the_mean() {
    let cost = LeastSquares {};

    let mut model = R(0.0);
    let teacher = GradientDescentAl { l0: R(0.3), t: R(4.0) };
    learn_history(&teacher, &cost, &mut model, numbers().iter().cycle().take(100).cloned());
    assert!(model.0 > 8.9 && model.0 < 9.1);

    let mut model = R(0.0);
    let teacher = Momentum { l0: R(0.1), t: R(4.0), inertia: R(0.5) };
    learn_history(&teacher, &cost, &mut model, numbers().iter().cycle().take(500).cloned());
    assert!(model.0 > 8.9 && model.0 < 9.1);

    let mut model = R(0.0);
    let teacher = Nesterov { l0: R(0.1), t: R(4.0), inertia: R(0.5) };
    learn_history(&teacher, &cost, &mut model, numbers().iter().cycle().take(500).cloned());
    assert!(model.0 > 8.9 && model.0 < 9.1);

    let mut model = R(0.0);
    let teacher = Adagard { learning_rate: R(1.0), epsilon: R(1.0) };
    learn_history(&teacher, &cost, &mut model, numbers().iter().cycle().take(1400).cloned());
    assert!(model.0 > 8.9 && model.0 < 9.1);
}

#[test]
fn every_teacher_finds_the_median() {
    let cost = LeastAbsoluteDeviation {};

    let mut model = R(0.0);
    let teacher = GradientDescentAl { l0: R(0.9), t: R(9.0) };
    learn_history(&teacher, &cost, &mut model, numbers().iter().cycle().take(150).cloned());
    assert!(model.0 > 6.9 && model.0 < 7.1);

    let mut model = R(0.0);
    let teacher = Momentum { l0: R(0.5), t: R(9.0), inertia: R(0.5) };
    learn_history(&teacher, &cost, &mut model, numbers().iter().cycle().take(4000).cloned());
    assert!(model.0 > 6.9 && model.0 < 7.1);

    let mut model = R(0.0);
    let teacher = Nesterov { l0: R(0.5), t: R(9.0), inertia: R(0.5) };
    learn_history(&teacher, &cost, &mut model, numbers().iter().cycle().take(4000).cloned());
    assert!(model.0 > 6.9 && model.0 < 7.1);

    let mut model = R(0.0);
    let teacher = Adagard { learning_rate: R(3.0), epsilon: R(1.0) };
    learn_history(&teacher, &cost, &mut model, numbers().iter().cycle().take(4000).cloned());
    assert!(model.0 > 6.9 && model.0 < 7.1);
}

fn classes() -> [([R; 2], bool); 10] {
    [
        ([R(2.7), R(2.5)], false),
        ([R(1.4), R(2.3)], false),
        ([R(3.3), R(4.4)], false),
        ([R(1.3), R(1.8)], false),
        ([R(3.0), R(3.0)], false),
        ([R(7.6), R(2.7)], true),
        ([R(5.3), R(2.0)], true),
        ([R(6.9), R(1.7)], true),
        ([R(8.6), R(-0.2)], true),
        ([R(7.6), R(3.5)], true),
    ]
}

fn errors(model: &Logistic<[R; 2]>) -> usize {
    classes()
        .iter()
        .filter(|(features, truth)| (model.predict(features).0 > 0.5) != *truth)
        .count()
}

#[test]
fn every_teacher_tells_the_classes_apart() {
    let cost = MaxLikelihood {};

    let mut model = Logistic::default();
    let teacher = GradientDescent { learning_rate: R(0.3) };
    learn_history(&teacher, &cost, &mut model, classes().iter().cycle().take(20).cloned());
    assert_eq!(errors(&model), 0);

    let mut model = Logistic::default();
    let teacher = Momentum { l0: R(0.01), t: R(100.0), inertia: R(0.5) };
    learn_history(&teacher, &cost, &mut model, classes().iter().cycle().take(200).cloned());
    assert_eq!(errors(&model), 0);

    let mut model = Logistic::default();
    let teacher = Nesterov { l0: R(0.01), t: R(100.0), inertia: R(0.5) };
    learn_history(&teacher, &cost, &mut model, classes().iter().cycle().take(200).cloned());
    assert_eq!(errors(&model), 0);

    let mut model = Logistic::default();
    let teacher = Adagard { learning_rate: R(3.0), epsilon: R(10000.0) };
    learn_history(&teacher, &cost, &mut model, classes().iter().cycle().take(60).cloned());
    assert_eq!(errors(&model), 0);
}
