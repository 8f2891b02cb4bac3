use vikos::linear_algebra::{dot_of_slices, FixDimension, Vector};
use vikos::model::{GeneralizedLinearModel, Linear, Logistic, OneVsRest};
use vikos::scalar::Scalar;
use vikos::Model;

/// A double precision number as the scalar of the library.
#[derive(Clone, Copy, Debug, PartialEq, PartialOrd)]
struct R(f64);

impl Scalar for R {
    fn from_count(n: usize) -> Self {
        R(n as f64)
    }

    fn add(self, rhs: Self) -> Self {
        R(self.0 + rhs.0)
    }

    fn sub(self, rhs: Self) -> Self {
        R(self.0 - rhs.0)
    }

    fn mul(self, rhs: Self) -> Self {
        R(self.0 * rhs.0)
    }

    fn div(self, rhs: Self) -> Self {
        R(self.0 / rhs.0)
    }

    fn neg(self) -> Self {
        R(-self.0)
    }

    fn abs(self) -> Self {
        R(self.0.abs())
    }

    fn sqrt(self) -> Self {
        R(self.0.sqrt())
    }

    fn exp(self) -> Self {
        R(self.0.exp())
    }

    fn ln(self) -> Self {
        R(self.0.ln())
    }

    fn lt(self, rhs: Self) -> bool {
        self.0 < rhs.0
    }
}

#[test]
fn dot() {
    let a = [R(1.0), R(2.0)];
    let b = [R(3.0), R(4.0)];

    assert_eq!(R(11.0), a.dot(&b))
}

#[test]
fn dot_of_numbers_is_their_product() {
    assert_eq!(R(3.0).dot(&R(4.0)), R(12.0));
    assert_eq!(R(-0.0).dot(&R(4.0)).0.to_bits(), (-0.0f64).to_bits());
}

#[test]
fn dot_adds_the_products_in_order_to_zero() {
    let a = vec![R(1e16), R(1.0), R(-1e16)];
    let b = vec![R(1.0), R(1.0), R(1.0)];
    assert_eq!(a.dot(&b), R(((0.0 + 1e16) + 1.0) - 1e16));
    assert_eq!(dot_of_slices(&[R(2.0), R(3.0)], &[R(5.0), R(7.0)]), R(31.0));
    let none: Vec<R> = Vec::new();
    assert_eq!(none.dot(&none), R(0.0));
}

#[test]
fn vector_of_one_number() {
    let mut x = <R as Vector>::zero(1);
    assert_eq!(x, R(0.0));
    assert_eq!(Vector::dimension(&x), 1);
    assert_eq!(x.at(0), R(0.0));
    *x.at_mut(0) = R(2.5);
    assert_eq!(x, R(2.5));
    assert_eq!(x.at(0), R(2.5));
    assert_eq!(<R as FixDimension>::origin(), R(0.0));
}

#[test]
fn vector_of_fixed_dimension() {
    let mut x = <[R; 3] as Vector>::zero(7);
    assert_eq!(x, [R(0.0), R(0.0), R(0.0)]);
    assert_eq!(x.dimension(), 3);
    *x.at_mut(1) = R(2.5);
    assert_eq!(x, [R(0.0), R(2.5), R(0.0)]);
    assert_eq!(x.at(1), R(2.5));
    assert_eq!(x.at(2), R(0.0));
    assert_eq!(<[R; 2] as FixDimension>::origin(), [R(0.0), R(0.0)]);
}

#[test]
fn vector_of_dimension_chosen_at_run_time() {
    let mut x = <Vec<R> as Vector>::zero(4);
    assert_eq!(x, vec![R(0.0), R(0.0), R(0.0), R(0.0)]);
    assert_eq!(x.dimension(), 4);
    *x.at_mut(3) = R(-1.0);
    assert_eq!(x, vec![R(0.0), R(0.0), R(0.0), R(-1.0)]);
    assert_eq!(x.at(3), R(-1.0));
    assert_eq!(<Vec<R> as Vector>::zero(0), Vec::new());
}

#[test]
fn constant_model() {
    let mut model = R(4.0);
    assert_eq!(model.num_coefficients(), 1);
    assert_eq!(model.predict(&()), R(4.0));
    assert_eq!(model.gradient(0, &()), R(1.0));
    *model.coefficient(0) = R(9.0);
    assert_eq!(model.predict(&()), R(9.0));
    assert_eq!(model, R(9.0));
}

#[test]
fn linear_model_on_a_number() {
    let mut model = Linear { m: R(2.0), c: R(3.0) };
    assert_eq!(model.num_coefficients(), 2);
    assert_eq!(model.predict(&R(5.0)), R(13.0));
    assert_eq!(model.gradient(0, &R(5.0)), R(5.0));
    assert_eq!(model.gradient(1, &R(5.0)), R(1.0));
    assert_eq!(*model.coefficient(0), R(2.0));
    assert_eq!(*model.coefficient(1), R(3.0));
    *model.coefficient(0) = R(-1.0);
    *model.coefficient(1) = R(0.5);
    assert_eq!(model.m, R(-1.0));
    assert_eq!(model.c, R(0.5));
    assert_eq!(model.predict(&R(5.0)), R(-4.5));
}

#[test]
fn linear_model_on_a_vector() {
    let mut model = Linear { m: vec![R(1.0), R(2.0), R(3.0)], c: R(4.0) };
    let x = vec![R(10.0), R(20.0), R(30.0)];
    assert_eq!(model.num_coefficients(), 4);
    assert_eq!(model.predict(&x), R(144.0));
    assert_eq!(model.gradient(0, &x), R(10.0));
    assert_eq!(model.gradient(1, &x), R(20.0));
    assert_eq!(model.gradient(2, &x), R(30.0));
    assert_eq!(model.gradient(3, &x), R(1.0));
    for i in 0..4 {
        assert_eq!(*model.coefficient(i), R(i as f64 + 1.0));
    }
    *model.coefficient(2) = R(0.0);
    assert_eq!(model.m, vec![R(1.0), R(2.0), R(0.0)]);
    assert_eq!(model.c, R(4.0));
    *model.coefficient(3) = R(7.0);
    assert_eq!(model.c, R(7.0));
    assert_eq!(model.predict(&x), R(57.0));
}

#[test]
fn linear_models_begin_at_zero() {
    let model = Linear::<Vec<R>>::with_feature_dimension(3);
    assert_eq!(model.m, vec![R(0.0), R(0.0), R(0.0)]);
    assert_eq!(model.c, R(0.0));
    let model = Linear::<[R; 2]>::with_feature_dimension(2);
    assert_eq!(model.m, [R(0.0), R(0.0)]);
    let model = Linear::<R>::with_feature_dimension(1);
    assert_eq!(model.m, R(0.0));
    let model = Linear::<[R; 4]>::default();
    assert_eq!(model.m, [R(0.0), R(0.0), R(0.0), R(0.0)]);
    assert_eq!(model.c, R(0.0));
    assert_eq!(model.num_coefficients(), 5);
}

#[test]
fn logistic_model() {
    let mut model = Logistic::<[R; 2]>::default();
    let x = [R(3.0), R(-2.0)];
    assert_eq!(model.num_coefficients(), 3);
    assert_eq!(model.predict(&x), R(0.5));
    assert_eq!(model.gradient(0, &x), R(-0.75));
    assert_eq!(model.gradient(1, &x), R(0.5));
    assert_eq!(model.gradient(2, &x), R(-0.25));
    *model.coefficient(0) = R(1.0);
    *model.coefficient(1) = R(1.0);
    *model.coefficient(2) = R(-1.0);
    assert_eq!(*model.coefficient(0), R(1.0));
    assert_eq!(model.predict(&x), R(0.5));
    *model.coefficient(2) = R(1.0);
    let p = 1.0 / (1.0 + 2.0f64.exp());
    assert_eq!(model.predict(&x), R(p));
    assert_eq!(model.gradient(0, &x), R(-p * (1.0 - p) * 3.0));
    assert_eq!(model.gradient(2, &x), R(-p * (1.0 - p) * 1.0));
    let model = Logistic::<Vec<R>>::with_feature_dimension(4);
    assert_eq!(model.num_coefficients(), 5);
    assert_eq!(model.predict(&vec![R(1.0), R(2.0), R(3.0), R(4.0)]), R(0.5));
}

#[test]
fn logistic_model_falls_with_the_linear_term() {
    let mut model = Logistic::<R>::default();
    *model.coefficient(0) = R(1.0);
    assert!(model.predict(&R(10.0)).0 < 0.001);
    assert!(model.predict(&R(-10.0)).0 > 0.999);
}

#[test]
fn generalized_linear_model() {
    let mut model = GeneralizedLinearModel::<[R; 2], _, _>::new(
        |x: R| R(x.0 * x.0),
        |x: R| R(2.0 * x.0),
    );
    let x = [R(3.0), R(-2.0)];
    assert_eq!(model.num_coefficients(), 3);
    assert_eq!(model.linear.m, [R(0.0), R(0.0)]);
    assert_eq!(model.linear.c, R(0.0));
    assert_eq!(model.predict(&x), R(0.0));
    *model.coefficient(0) = R(1.0);
    *model.coefficient(1) = R(0.5);
    *model.coefficient(2) = R(2.0);
    assert_eq!(model.linear.m, [R(1.0), R(0.5)]);
    assert_eq!(model.linear.c, R(2.0));
    assert_eq!(model.predict(&x), R(16.0));
    assert_eq!(model.gradient(0, &x), R(24.0));
    assert_eq!(model.gradient(1, &x), R(-16.0));
    assert_eq!(model.gradient(2, &x), R(8.0));
}

fn three_of_five() -> OneVsRest<[Linear<[R; 4]>; 3]> {
    let model = |class: f64| Linear {
        m: [R(class), R(class + 1.0), R(class + 2.0), R(class + 3.0)],
        c: R(class + 4.0),
    };
    OneVsRest::new([model(0.0), model(10.0), model(20.0)])
}

#[test]
fn one_vs_rest_counts_every_coefficient() {
    let model = three_of_five();
    assert_eq!(model.num_coefficients(), 15);
    let model = OneVsRest::new(vec![Logistic::<[R; 2]>::default()]);
    assert_eq!(model.num_coefficients(), 3);
}

#[test]
fn one_vs_rest_interleaves_coefficients() {
    let mut model = three_of_five();
    assert_eq!(*model.coefficient(7), R(12.0));
    let expected = [
        0.0, 10.0, 20.0, 1.0, 11.0, 21.0, 2.0, 12.0, 22.0, 3.0, 13.0, 23.0, 4.0, 14.0, 24.0,
    ];
    for (index, value) in expected.iter().enumerate() {
        assert_eq!(*model.coefficient(index), R(*value));
    }
}

#[test]
fn one_vs_rest_coefficient_round_trip() {
    let mut model = three_of_five();
    for index in 0..15 {
        let value = R(100.0 + index as f64);
        *model.coefficient(index) = value;
        assert_eq!(*model.coefficient(index), value);
    }
    for index in 0..15 {
        assert_eq!(*model.coefficient(index), R(100.0 + index as f64));
    }
}

#[test]
fn one_vs_rest_index_seven_is_the_third_coefficient_of_the_second_model() {
    let mut model = three_of_five();
    *model.coefficient(7) = R(-1.0);
    let x = [R(0.0), R(0.0), R(1.0), R(0.0)];
    assert_eq!(model.predict(&x), [R(6.0), R(13.0), R(46.0)]);
    for index in 0..15 {
        if index != 7 {
            assert_eq!(*model.coefficient(index), R((index % 3 * 10 + index / 3) as f64));
        }
    }
}

#[test]
fn one_vs_rest_predicts_for_every_class() {
    let model = three_of_five();
    let x = [R(1.0), R(1.0), R(1.0), R(1.0)];
    assert_eq!(model.predict(&x), [R(10.0), R(60.0), R(110.0)]);
    let model = OneVsRest::new(vec![
        Logistic::<R>::default(),
        Logistic::<R>::default(),
    ]);
    assert_eq!(model.predict(&R(3.0)), vec![R(0.5), R(0.5)]);
}

#[test]
fn one_vs_rest_gradient_is_zero_but_for_one_class() {
    let model = three_of_five();
    let x = [R(5.0), R(6.0), R(7.0), R(8.0)];
    assert_eq!(model.gradient(7, &x), [R(0.0), R(7.0), R(0.0)]);
    assert_eq!(model.gradient(0, &x), [R(5.0), R(0.0), R(0.0)]);
    assert_eq!(model.gradient(14, &x), [R(0.0), R(0.0), R(1.0)]);
    assert_eq!(model.gradient(12, &x), [R(1.0), R(0.0), R(0.0)]);
}

#[test]
fn one_vs_rest_by_default() {
    let mut model = OneVsRest::<[Logistic<[R; 4]>; 3]>::default();
    assert_eq!(model.num_coefficients(), 15);
    let x = [R(5.0), R(6.0), R(7.0), R(8.0)];
    assert_eq!(model.predict(&x), [R(0.5), R(0.5), R(0.5)]);
    *model.coefficient(13) = R(1.0);
    let p = 1.0 / (1.0 + 1.0f64.exp());
    assert_eq!(model.predict(&x), [R(0.5), R(p), R(0.5)]);
}

#[test]
fn one_vs_rest_comes_apart_again() {
    let mut model = three_of_five();
    *model.coefficient(7) = R(-1.0);
    let models = model.into_models();
    assert_eq!(models[0].m, [R(0.0), R(1.0), R(2.0), R(3.0)]);
    assert_eq!(models[1].m, [R(10.0), R(11.0), R(-1.0), R(13.0)]);
    assert_eq!(models[1].c, R(14.0));
    assert_eq!(models[2].c, R(24.0));
}
