//! The models: constant, linear, logistic, generalized linear, and one against the
//! rest.
use crate::array::Array;
use crate::linear_algebra::{FixDimension, Vector};
use crate::scalar::{one, zero, zeros, Scalar};
use crate::Model;
use vstd::arithmetic::div_mod::{
    lemma_fundamental_div_mod, lemma_fundamental_div_mod_converse, lemma_multiply_divide_lt,
};
use vstd::prelude::*;

verus! {

/// A number is the constant model: it predicts itself, whatever the features.
impl<S: Scalar> Model for S {
    type Scalar = S;

    type Features = ();

    type Target = S;

    type Shape = ();

    open spec fn valid(&self) -> bool {
        true
    }

    open spec fn shape(&self) -> () {
        ()
    }

    open spec fn coefficients(&self) -> Seq<S> {
        seq![*self]
    }

    open spec fn accepts(shape: (), count: nat, features: &()) -> bool {
        true
    }

    open spec fn predict_at(shape: (), coefficients: Seq<S>, features: &()) -> Seq<S> {
        seq![coefficients[0]]
    }

    open spec fn gradient_at(
        shape: (),
        coefficients: Seq<S>,
        coefficient: int,
        features: &(),
    ) -> Seq<S> {
        seq![one::<S>()]
    }

    fn num_coefficients(&self) -> (n: usize) {
        1
    }

    fn coefficient(&mut self, coefficient: usize) -> (c: &mut S) {
        proof {
            assert(seq![*final(self)] =~= seq![*old(self)].update(0, *final(self)));
        }
        self
    }

    fn predict(&self, features: &()) -> (y: S) {
        *self
    }

    fn gradient(&self, coefficient: usize, features: &()) -> (d: S) {
        S::from_count(1)
    }
}

/// Models the target as `y = m * x + c`.
#[derive(Debug, Clone)]
pub struct Linear<V: Vector> {
    /// Slope
    pub m: V,
    /// Offset
    pub c: V::Scalar,
}

/// The prediction of a linear model with the given coefficients, slope first and
/// offset last, at features with the given entries.
pub open spec fn linear_value<V: Vector>(
    coefficients: Seq<V::Scalar>,
    features: Seq<V::Scalar>,
) -> V::Scalar {
    V::dot_spec(coefficients.drop_last(), features).add_spec(coefficients.last())
}

impl<V: Vector> Linear<V> {
    /// Creates a linear model for features of the given dimension, with every
    /// coefficient zero.
    pub fn with_feature_dimension(dimension: usize) -> (model: Self)
        requires
            V::admits(dimension),
        ensures
            model.m.entries() == zeros::<V::Scalar>(V::zero_dimension(dimension)),
            model.c == zero::<V::Scalar>(),
    {
        Linear { m: V::zero(dimension), c: V::Scalar::from_count(0) }
    }
}

impl<V: FixDimension> Default for Linear<V> {
    /// The linear model with every coefficient zero.
    fn default() -> (model: Self)
        ensures
            model.m.entries() == zeros::<V::Scalar>(V::fixed_dimension()),
            model.c == zero::<V::Scalar>(),
    {
        Linear { m: V::origin(), c: V::Scalar::from_count(0) }
    }
}

impl<V: Vector> Model for Linear<V> {
    type Scalar = V::Scalar;

    type Features = V;

    type Target = V::Scalar;

    type Shape = ();

    open spec fn valid(&self) -> bool {
        self.m.entries().len() < usize::MAX
    }

    open spec fn shape(&self) -> () {
        ()
    }

    open spec fn coefficients(&self) -> Seq<V::Scalar> {
        self.m.entries().push(self.c)
    }

    open spec fn accepts(shape: (), count: nat, features: &V) -> bool {
        features.entries().len() + 1 == count
    }

    open spec fn predict_at(shape: (), coefficients: Seq<V::Scalar>, features: &V) -> Seq<
        V::Scalar,
    > {
        seq![linear_value::<V>(coefficients, features.entries())]
    }

    open spec fn gradient_at(
        shape: (),
        coefficients: Seq<V::Scalar>,
        coefficient: int,
        features: &V,
    ) -> Seq<V::Scalar> {
        if coefficient == coefficients.len() - 1 {
            seq![one::<V::Scalar>()]
        } else {
            seq![features.entries()[coefficient]]
        }
    }

    fn num_coefficients(&self) -> (n: usize) {
        self.m.dimension() + 1
    }

    fn coefficient(&mut self, coefficient: usize) -> (c: &mut V::Scalar) {
        if coefficient == self.m.dimension() {
            proof {
                let m = old(self).m.entries();
                assert(m.push(final(self).c) =~= m.push(old(self).c).update(
                    coefficient as int,
                    final(self).c,
                ));
            }
            &mut self.c
        } else {
            let c = self.m.at_mut(coefficient);
            proof {
                let m = old(self).m.entries();
                assert(m.update(coefficient as int, *final(c)).push(old(self).c) =~= m.push(
                    old(self).c,
                ).update(coefficient as int, *final(c)));
            }
            c
        }
    }

    fn predict(&self, input: &V) -> (y: V::Scalar) {
        proof {
            assert(self.coefficients().drop_last() =~= self.m.entries());
        }
        self.m.dot(input).add(self.c)
    }

    fn gradient(&self, coefficient: usize, input: &V) -> (d: V::Scalar) {
        if coefficient == self.m.dimension() {
            V::Scalar::from_count(1)
        } else {
            input.at(coefficient)
        }
    }
}

/// The logistic function as the library computes it: `1 / (1 + e^x)`.
pub open spec fn logistic_value<S: Scalar>(x: S) -> S {
    one::<S>().div_spec(one::<S>().add_spec(x.exp_spec()))
}

/// The derivative of a logistic model's prediction `p` by a coefficient, from the
/// derivative `d` of the linear term by that coefficient: `-p * (1 - p) * d`.
pub open spec fn logistic_slope<S: Scalar>(p: S, d: S) -> S {
    p.neg_spec().mul_spec(one::<S>().sub_spec(p)).mul_spec(d)
}

/// Models the target as `y = 1 / (1 + e^(m * x + c))`.
#[derive(Debug, Clone)]
pub struct Logistic<V: Vector>(Linear<V>);

impl<V: Vector> Logistic<V> {
    /// The linear term of the model.
    pub closed spec fn linear(&self) -> Linear<V> {
        self.0
    }

    /// Creates a logistic model for features of the given dimension, with every
    /// coefficient zero.
    pub fn with_feature_dimension(dimension: usize) -> (model: Self)
        requires
            V::admits(dimension),
        ensures
            model.linear().m.entries() == zeros::<V::Scalar>(V::zero_dimension(dimension)),
            model.linear().c == zero::<V::Scalar>(),
    {
        Logistic(Linear::with_feature_dimension(dimension))
    }
}

impl<V: FixDimension> Default for Logistic<V> {
    /// The logistic model with every coefficient zero.
    fn default() -> (model: Self)
        ensures
            model.linear().m.entries() == zeros::<V::Scalar>(V::fixed_dimension()),
            model.linear().c == zero::<V::Scalar>(),
    {
        Logistic(Linear::default())
    }
}

impl<V: Vector> Model for Logistic<V> {
    type Scalar = V::Scalar;

    type Features = V;

    type Target = V::Scalar;

    type Shape = ();

    open spec fn valid(&self) -> bool {
        self.linear().valid()
    }

    open spec fn shape(&self) -> () {
        ()
    }

    open spec fn coefficients(&self) -> Seq<V::Scalar> {
        self.linear().coefficients()
    }

    open spec fn accepts(shape: (), count: nat, features: &V) -> bool {
        Linear::<V>::accepts((), count, features)
    }

    open spec fn predict_at(shape: (), coefficients: Seq<V::Scalar>, features: &V) -> Seq<
        V::Scalar,
    > {
        seq![logistic_value(linear_value::<V>(coefficients, features.entries()))]
    }

    open spec fn gradient_at(
        shape: (),
        coefficients: Seq<V::Scalar>,
        coefficient: int,
        features: &V,
    ) -> Seq<V::Scalar> {
        seq![
            logistic_slope(
                logistic_value(linear_value::<V>(coefficients, features.entries())),
                Linear::<V>::gradient_at((), coefficients, coefficient, features)[0],
            ),
        ]
    }

    fn num_coefficients(&self) -> (n: usize) {
        self.0.num_coefficients()
    }

    fn coefficient(&mut self, coefficient: usize) -> (c: &mut V::Scalar) {
        self.0.coefficient(coefficient)
    }

    fn predict(&self, input: &V) -> (y: V::Scalar) {
        let one = V::Scalar::from_count(1);
        let x = self.0.predict(input);
        assert(x == x.entries()[0]);
        one.div(one.add(x.exp()))
    }

    fn gradient(&self, coefficient: usize, input: &V) -> (d: V::Scalar) {
        let p = self.predict(input);
        let slope = self.0.gradient(coefficient, input);
        assert(p == p.entries()[0] && slope == slope.entries()[0]);
        p.neg().mul(V::Scalar::from_count(1).sub(p)).mul(slope)
    }
}

/// Whether `f` takes every number and returns one value for each.
pub open spec fn is_function<S, F: Fn(S) -> S>(f: F) -> bool {
    &&& forall|x: S| call_requires(f, (x,))
    &&& forall|x: S, y: S, z: S|
        call_ensures(f, (x,), y) && call_ensures(f, (x,), z) ==> y == z
}

/// The value that `f` returns at `x`.
pub open spec fn applied<S, F: Fn(S) -> S>(f: F, x: S) -> S {
    choose|y: S| call_ensures(f, (x,), y)
}

/// Models the target as `y = g(m * x + c)`.
#[derive(Clone)]
pub struct GeneralizedLinearModel<V: Vector, G, Dg> {
    /// `Linear` term of the generalized linear `Model`
    pub linear: Linear<V>,
    /// Outer function applied to the result of `linear`
    pub g: G,
    /// Derivation of `g`
    pub g_derivate: Dg,
}

impl<V, G, Dg> GeneralizedLinearModel<V, G, Dg> where
    V: Vector,
    G: Fn(V::Scalar) -> V::Scalar,
    Dg: Fn(V::Scalar) -> V::Scalar,
 {
    /// Creates a model of the given outer function and its derivative, with every
    /// coefficient zero.
    pub fn new(g: G, g_derivate: Dg) -> (model: GeneralizedLinearModel<V, G, Dg>) where
        V: FixDimension,

        ensures
            model.linear.m.entries() == zeros::<V::Scalar>(V::fixed_dimension()),
            model.linear.c == zero::<V::Scalar>(),
            model.g == g,
            model.g_derivate == g_derivate,
    {
        GeneralizedLinearModel { linear: Linear::default(), g, g_derivate }
    }
}

impl<V, G, Dg> Model for GeneralizedLinearModel<V, G, Dg> where
    V: Vector,
    G: Fn(V::Scalar) -> V::Scalar,
    Dg: Fn(V::Scalar) -> V::Scalar,
 {
    type Scalar = V::Scalar;

    type Features = V;

    type Target = V::Scalar;

    type Shape = (G, Dg);

    open spec fn valid(&self) -> bool {
        &&& self.linear.valid()
        &&& is_function(self.g)
        &&& is_function(self.g_derivate)
    }

    open spec fn shape(&self) -> (G, Dg) {
        (self.g, self.g_derivate)
    }

    open spec fn coefficients(&self) -> Seq<V::Scalar> {
        self.linear.coefficients()
    }

    open spec fn accepts(shape: (G, Dg), count: nat, features: &V) -> bool {
        Linear::<V>::accepts((), count, features)
    }

    open spec fn predict_at(shape: (G, Dg), coefficients: Seq<V::Scalar>, features: &V) -> Seq<
        V::Scalar,
    > {
        seq![applied(shape.0, linear_value::<V>(coefficients, features.entries()))]
    }

    open spec fn gradient_at(
        shape: (G, Dg),
        coefficients: Seq<V::Scalar>,
        coefficient: int,
        features: &V,
    ) -> Seq<V::Scalar> {
        seq![
            applied(shape.1, linear_value::<V>(coefficients, features.entries())).mul_spec(
                Linear::<V>::gradient_at((), coefficients, coefficient, features)[0],
            ),
        ]
    }

    fn num_coefficients(&self) -> (n: usize) {
        self.linear.num_coefficients()
    }

    fn coefficient(&mut self, coefficient: usize) -> (c: &mut V::Scalar) {
        self.linear.coefficient(coefficient)
    }

    fn predict(&self, input: &V) -> (y: V::Scalar) {
        let f = &self.g;
        let x = self.linear.predict(input);
        assert(x == x.entries()[0]);
        f(x)
    }

    fn gradient(&self, coefficient: usize, input: &V) -> (d: V::Scalar) {
        let f = &self.g_derivate;
        let x = self.linear.predict(input);
        assert(x == x.entries()[0]);
        let outer = f(x);
        let slope = self.linear.gradient(coefficient, input);
        assert(slope == slope.entries()[0]);
        outer.mul(slope)
    }
}

/// The coefficients of models of one coefficient count each, one row a model, in the
/// order of a combined model: the first coefficient of every model, then the second
/// of every model, and so on. Position `i` holds coefficient `i / K` of model
/// `i % K`, where `K` is the number of models.
pub open spec fn interleaved<S>(rows: Seq<Seq<S>>) -> Seq<S> {
    Seq::new(
        rows.len() * rows[0].len(),
        |i: int| rows[i % (rows.len() as int)][i / (rows.len() as int)],
    )
}

/// The coefficients of the model of index `class` among the coefficients of
/// `classes` models in combined order.
pub open spec fn deinterleaved<S>(coefficients: Seq<S>, class: int, classes: nat) -> Seq<S> {
    Seq::new(coefficients.len() / classes, |j: int| coefficients[j * classes + class])
}

/// Whether `rows` are the coefficients of at least one model, of one count each.
pub open spec fn aligned<S>(rows: Seq<Seq<S>>) -> bool {
    &&& rows.len() > 0
    &&& forall|k: int| 0 <= k < rows.len() ==> (#[trigger] rows[k]).len() == rows[0].len()
}

/// An index of the combined order splits into a model and a position in it.
pub proof fn lemma_split_index(index: int, classes: int, count: int)
    requires
        0 < classes,
        0 <= index < classes * count,
    ensures
        0 <= index % classes < classes,
        0 <= index / classes < count,
        index == (index / classes) * classes + index % classes,
{
    lemma_fundamental_div_mod(index, classes);
    lemma_multiply_divide_lt(index, classes, count);
    assert(classes * (index / classes) == (index / classes) * classes) by (nonlinear_arith);
    assert(0 <= index / classes) by (nonlinear_arith)
        requires
            0 <= index,
            0 < classes,
    ;
}

/// A model and a position in it have one index in the combined order, and that
/// index splits into them again.
pub proof fn lemma_join_index(class: int, local: int, classes: int, count: int)
    requires
        0 <= class < classes,
        0 <= local < count,
    ensures
        0 <= local * classes + class < classes * count,
        (local * classes + class) % classes == class,
        (local * classes + class) / classes == local,
{
    lemma_fundamental_div_mod_converse(local * classes + class, classes, local, class);
    assert(0 <= local * classes + class < classes * count) by (nonlinear_arith)
        requires
            0 <= class < classes,
            0 <= local < count,
    ;
}

/// Taking the coefficients of one model out of the combined order gives that
/// model's coefficients back.
pub proof fn lemma_deinterleave<S>(rows: Seq<Seq<S>>, class: int)
    requires
        aligned(rows),
        0 <= class < rows.len(),
    ensures
        deinterleaved(interleaved(rows), class, rows.len()) == rows[class],
{
    let classes = rows.len() as int;
    let count = rows[0].len() as int;
    assert((classes * count) / classes == count) by (nonlinear_arith)
        requires
            classes > 0,
            count >= 0,
    ;
    assert forall|j: int| 0 <= j < count implies #[trigger] deinterleaved(
        interleaved(rows),
        class,
        rows.len(),
    )[j] == rows[class][j] by {
        lemma_join_index(class, j, classes, count);
    }
    assert(deinterleaved(interleaved(rows), class, rows.len()) =~= rows[class]);
}

/// Setting one coefficient of one model sets the coefficient of the same index in
/// the combined order, and no other. Reading that index afterwards yields the value.
pub proof fn lemma_interleave_update<S>(rows: Seq<Seq<S>>, index: int, value: S)
    requires
        aligned(rows),
        0 <= index < rows.len() * rows[0].len(),
    ensures
        ({
            let class = index % (rows.len() as int);
            let local = index / (rows.len() as int);
            let set = rows.update(class, rows[class].update(local, value));
            &&& aligned(set)
            &&& interleaved(set) == interleaved(rows).update(index, value)
            &&& interleaved(set)[index] == value
        }),
{
    let classes = rows.len() as int;
    let count = rows[0].len() as int;
    let class = index % classes;
    let local = index / classes;
    lemma_split_index(index, classes, count);
    let set = rows.update(class, rows[class].update(local, value));
    assert(aligned(set));
    assert forall|i: int| 0 <= i < classes * count implies #[trigger] interleaved(set)[i]
        == interleaved(rows).update(index, value)[i] by {
        lemma_split_index(i, classes, count);
    }
    assert(interleaved(set) =~= interleaved(rows).update(index, value));
}

/// One vs Rest strategy for multi classification.
///
/// Combines binary classifiers of one coefficient count each into a classifier of
/// several classes, whose prediction holds the prediction of every one of them.
#[derive(Debug, Clone)]
pub struct OneVsRest<T>(T);

impl<T> OneVsRest<T> {
    /// The combined models.
    pub closed spec fn models(&self) -> T {
        self.0
    }

    /// Create a new One vs Rest model from an array of existing models.
    pub fn new(t: T) -> (r: Self)
        ensures
            r.models() == t,
    {
        OneVsRest(t)
    }

    /// Takes the combined model apart again.
    pub fn into_models(self) -> (t: T)
        ensures
            t == self.models(),
    {
        self.0
    }
}

impl<T: Default> Default for OneVsRest<T> {
    /// Combines the models that the array's own default holds.
    fn default() -> (r: Self)
        ensures
            call_ensures(T::default, (), r.models()),
    {
        OneVsRest(T::default())
    }
}

/// The coefficients of each of `models`, one row a model.
pub open spec fn coefficient_rows<E: Model>(models: Seq<E>) -> Seq<Seq<E::Scalar>> {
    Seq::new(models.len(), |k: int| models[k].coefficients())
}

impl<T> Model for OneVsRest<T> where
    T: Array,
    T::Element: Model<Target = <T::Element as Model>::Scalar>,
    T::Vector: Vector<Scalar = <T::Element as Model>::Scalar>,
 {
    type Scalar = <T::Element as Model>::Scalar;

    type Features = <T::Element as Model>::Features;

    type Target = T::Vector;

    type Shape = Seq<<T::Element as Model>::Shape>;

    open spec fn valid(&self) -> bool {
        let models = self.models().items();
        &&& aligned(coefficient_rows(models))
        &&& forall|k: int| 0 <= k < models.len() ==> (#[trigger] models[k]).valid()
        &&& models.len() * models[0].coefficients().len() <= usize::MAX
    }

    open spec fn shape(&self) -> Self::Shape {
        let models = self.models().items();
        Seq::new(models.len(), |k: int| models[k].shape())
    }

    open spec fn coefficients(&self) -> Seq<Self::Scalar> {
        interleaved(coefficient_rows(self.models().items()))
    }

    open spec fn accepts(shape: Self::Shape, count: nat, features: &Self::Features) -> bool {
        forall|k: int|
            0 <= k < shape.len() ==> T::Element::accepts(
                #[trigger] shape[k],
                count / shape.len(),
                features,
            )
    }

    open spec fn predict_at(
        shape: Self::Shape,
        coefficients: Seq<Self::Scalar>,
        features: &Self::Features,
    ) -> Seq<Self::Scalar> {
        Seq::new(
            shape.len(),
            |k: int|
                T::Element::predict_at(
                    shape[k],
                    deinterleaved(coefficients, k, shape.len()),
                    features,
                )[0],
        )
    }

    open spec fn gradient_at(
        shape: Self::Shape,
        coefficients: Seq<Self::Scalar>,
        coefficient: int,
        features: &Self::Features,
    ) -> Seq<Self::Scalar> {
        Seq::new(
            shape.len(),
            |k: int|
                if k == coefficient % (shape.len() as int) {
                    T::Element::gradient_at(
                        shape[k],
                        deinterleaved(coefficients, k, shape.len()),
                        coefficient / (shape.len() as int),
                        features,
                    )[0]
                } else {
                    zero::<Self::Scalar>()
                },
        )
    }

    fn num_coefficients(&self) -> (n: usize) {
        let models = &self.0;
        proof {
            let rows = coefficient_rows(models.items());
            assert(rows[0] == models.items()[0].coefficients());
        }
        models.length() * models.at_ref(0).num_coefficients()
    }

    fn coefficient(&mut self, index: usize) -> (c: &mut Self::Scalar) {
        let models = &mut self.0;
        let ghost before = models.items();
        let ghost rows = coefficient_rows(before);
        proof {
            assert(rows[0] == before[0].coefficients());
            lemma_split_index(index as int, rows.len() as int, rows[0].len() as int);
        }
        let class = index % models.length();
        let n = index / models.length();
        assert(rows[class as int] == before[class as int].coefficients());
        let model = models.at_mut(class);
        let ghost settled = *final(model);
        let c = model.coefficient(n);
        proof {
            let after = before.update(class as int, settled);
            let set = rows.update(class as int, rows[class as int].update(n as int, *final(c)));
            lemma_interleave_update(rows, index as int, *final(c));
            assert(coefficient_rows(after) =~= set);
            assert(Seq::new(after.len(), |k: int| after[k].shape()) =~= Seq::new(
                before.len(),
                |k: int| before[k].shape(),
            ));
            assert(set[0] == after[0].coefficients());
        }
        c
    }

    fn predict(&self, input: &Self::Features) -> (y: Self::Target) {
        let models = &self.0;
        let ghost rows = coefficient_rows(models.items());
        let classes = models.length();
        let mut result = Self::Target::zero(classes);
        let mut i: usize = 0;
        while i < classes
            invariant
                i <= classes,
                self.valid(),
                models == &self.0,
                rows == coefficient_rows(models.items()),
                classes == models.items().len(),
                Self::accepts(self.shape(), self.coefficients().len(), input),
                result.entries().len() == classes,
                forall|k: int|
                    0 <= k < i ==> #[trigger] result.entries()[k] == Self::predict_at(
                        self.shape(),
                        self.coefficients(),
                        input,
                    )[k],
            decreases classes - i,
        {
            proof {
                lemma_deinterleave(rows, i as int);
                assert(rows[i as int] == models.items()[i as int].coefficients());
                assert(rows[0] == models.items()[0].coefficients());
                assert(self.shape()[i as int] == models.items()[i as int].shape());
                assert((rows.len() * rows[0].len()) / rows.len() == rows[0].len())
                    by (nonlinear_arith)
                    requires
                        rows.len() > 0,
                ;
            }
            let score = models.at_ref(i).predict(input);
            assert(score == score.entries()[0]);
            *result.at_mut(i) = score;
            i += 1;
        }
        assert(result.entries() =~= Self::predict_at(self.shape(), self.coefficients(), input));
        result
    }

    fn gradient(&self, coefficient: usize, input: &Self::Features) -> (d: Self::Target) {
        let models = &self.0;
        let ghost rows = coefficient_rows(models.items());
        proof {
            assert(rows[0] == models.items()[0].coefficients());
            lemma_split_index(coefficient as int, rows.len() as int, rows[0].len() as int);
        }
        let class = coefficient % models.length();
        let mut result = Self::Target::zero(models.length());
        proof {
            lemma_deinterleave(rows, class as int);
            assert(rows[class as int] == models.items()[class as int].coefficients());
            assert(self.shape()[class as int] == models.items()[class as int].shape());
            assert((rows.len() * rows[0].len()) / rows.len() == rows[0].len()) by (nonlinear_arith)
                requires
                    rows.len() > 0,
            ;
        }
        let slope = models.at_ref(class).gradient(coefficient / models.length(), input);
        assert(slope == slope.entries()[0]);
        *result.at_mut(class) = slope;
        assert(result.entries() =~= Self::gradient_at(
            self.shape(),
            self.coefficients(),
            coefficient as int,
            input,
        ));
        result
    }
}

/// The coefficient of index `index` of a valid combined model is the coefficient of
/// index `index / K` of the model of index `index % K`, `K` being the number of
/// models.
pub proof fn lemma_one_vs_rest_index<T>(model: OneVsRest<T>, index: int) where
    T: Array,
    T::Element: Model<Target = <T::Element as Model>::Scalar>,
    T::Vector: Vector<Scalar = <T::Element as Model>::Scalar>,

    requires
        model.valid(),
        0 <= index < model.coefficients().len(),
    ensures
        ({
            let models = model.models().items();
            let class = index % (models.len() as int);
            let local = index / (models.len() as int);
            &&& 0 <= class < models.len()
            &&& 0 <= local < models[class].coefficients().len()
            &&& model.coefficients()[index] == models[class].coefficients()[local]
        }),
{
    let models = model.models().items();
    let rows = coefficient_rows(models);
    assert(rows[0] == models[0].coefficients());
    lemma_split_index(index, rows.len() as int, rows[0].len() as int);
    let class = index % (models.len() as int);
    assert(rows[class] == models[class].coefficients());
}

/// Setting a coefficient of a combined model and reading it back yields what was
/// set. Precisely: where `after` differs from the valid combined model `before` in
/// coefficient `index / K` of model `index % K` alone, `K` being the number of
/// models, and holds `value` there, its coefficients are those of `before` with
/// `value` at `index`.
pub proof fn lemma_one_vs_rest_round_trip<T>(
    before: OneVsRest<T>,
    after: OneVsRest<T>,
    index: int,
    value: <T::Element as Model>::Scalar,
) where
    T: Array,
    T::Element: Model<Target = <T::Element as Model>::Scalar>,
    T::Vector: Vector<Scalar = <T::Element as Model>::Scalar>,

    requires
        before.valid(),
        0 <= index < before.coefficients().len(),
        after.models().items().len() == before.models().items().len(),
        forall|k: int|
            0 <= k < before.models().items().len() && k != index % (
            before.models().items().len() as int) ==> after.models().items()[k]
                == before.models().items()[k],
        ({
            let class = index % (before.models().items().len() as int);
            let local = index / (before.models().items().len() as int);
            after.models().items()[class].coefficients()
                == before.models().items()[class].coefficients().update(local, value)
        }),
    ensures
        after.coefficients() == before.coefficients().update(index, value),
        after.coefficients()[index] == value,
        after.coefficients().len() == before.coefficients().len(),
{
    let models = before.models().items();
    let rows = coefficient_rows(models);
    let class = index % (models.len() as int);
    let local = index / (models.len() as int);
    assert(rows[0] == models[0].coefficients());
    lemma_split_index(index, rows.len() as int, rows[0].len() as int);
    lemma_interleave_update(rows, index, value);
    assert(rows[class] == models[class].coefficients());
    assert(coefficient_rows(after.models().items()) =~= rows.update(
        class,
        rows[class].update(local, value),
    ));
}

} // verus!
