//! The closed vocabularies of range functions, aggregation operators and
//! scalar functions, their names, and the rules that depend only on the shape
//! of a call or the size of a window.
use vstd::prelude::*;
use crate::text::str_eq;
use crate::labels::LabelSet;
use crate::grouping::label_sets_view;
use crate::matching::SetOp;

verus! {

/// Functions over the samples of a sliding window.
#[derive(PartialEq, Eq, Structural, Clone, Copy, Debug)]
pub enum RangeFunc {
    Rate,
    Irate,
    Increase,
    SumOverTime,
    AvgOverTime,
    MinOverTime,
    MaxOverTime,
    CountOverTime,
    StddevOverTime,
    StdvarOverTime,
    QuantileOverTime,
    LastOverTime,
    FirstOverTime,
    Delta,
    Idelta,
    Deriv,
    PredictLinear,
    Changes,
    Resets,
    AbsentOverTime,
    PresentOverTime,
}

/// Operators that combine the series of a group.
#[derive(PartialEq, Eq, Structural, Clone, Copy, Debug)]
pub enum AggOp {
    Sum,
    Avg,
    Min,
    Max,
    Count,
    Stddev,
    Stdvar,
    Quantile,
    Topk,
    Bottomk,
    Group,
    CountValues,
}

/// Functions applied to every sample of every series.
#[derive(PartialEq, Eq, Structural, Clone, Copy, Debug)]
pub enum ScalarFunc {
    Abs,
    Ceil,
    Floor,
    Round,
    Sqrt,
    Exp,
    Ln,
    Log2,
    Log10,
    Sgn,
    ClampMin,
    ClampMax,
    Clamp,
    HistogramQuantile,
    Sin,
    Cos,
    Asin,
    Acos,
    Atan2,
    Sinh,
    Cosh,
    Asinh,
    Acosh,
    Atanh,
    Deg,
    Rad,
    Pi,
    Timestamp,
}

/// The range function called `name`.
pub open spec fn range_func_named(name: Seq<char>) -> Option<RangeFunc> {
    if name == "rate"@ {
        Some(RangeFunc::Rate)
    } else if name == "irate"@ {
        Some(RangeFunc::Irate)
    } else if name == "increase"@ {
        Some(RangeFunc::Increase)
    } else if name == "sum_over_time"@ {
        Some(RangeFunc::SumOverTime)
    } else if name == "avg_over_time"@ {
        Some(RangeFunc::AvgOverTime)
    } else if name == "min_over_time"@ {
        Some(RangeFunc::MinOverTime)
    } else if name == "max_over_time"@ {
        Some(RangeFunc::MaxOverTime)
    } else if name == "count_over_time"@ {
        Some(RangeFunc::CountOverTime)
    } else if name == "stddev_over_time"@ {
        Some(RangeFunc::StddevOverTime)
    } else if name == "stdvar_over_time"@ {
        Some(RangeFunc::StdvarOverTime)
    } else if name == "quantile_over_time"@ {
        Some(RangeFunc::QuantileOverTime)
    } else if name == "last_over_time"@ {
        Some(RangeFunc::LastOverTime)
    } else if name == "first_over_time"@ {
        Some(RangeFunc::FirstOverTime)
    } else if name == "delta"@ {
        Some(RangeFunc::Delta)
    } else if name == "idelta"@ {
        Some(RangeFunc::Idelta)
    } else if name == "deriv"@ {
        Some(RangeFunc::Deriv)
    } else if name == "predict_linear"@ {
        Some(RangeFunc::PredictLinear)
    } else if name == "changes"@ {
        Some(RangeFunc::Changes)
    } else if name == "resets"@ {
        Some(RangeFunc::Resets)
    } else if name == "absent_over_time"@ {
        Some(RangeFunc::AbsentOverTime)
    } else if name == "present_over_time"@ {
        Some(RangeFunc::PresentOverTime)
    } else {
        None
    }
}

/// The range function called `name`, if there is one.
pub fn to_range_func(name: &str) -> (r: Option<RangeFunc>)
    ensures
        r == range_func_named(name@),
{
    if str_eq(name, "rate") {
        Some(RangeFunc::Rate)
    } else if str_eq(name, "irate") {
        Some(RangeFunc::Irate)
    } else if str_eq(name, "increase") {
        Some(RangeFunc::Increase)
    } else if str_eq(name, "sum_over_time") {
        Some(RangeFunc::SumOverTime)
    } else if str_eq(name, "avg_over_time") {
        Some(RangeFunc::AvgOverTime)
    } else if str_eq(name, "min_over_time") {
        Some(RangeFunc::MinOverTime)
    } else if str_eq(name, "max_over_time") {
        Some(RangeFunc::MaxOverTime)
    } else if str_eq(name, "count_over_time") {
        Some(RangeFunc::CountOverTime)
    } else if str_eq(name, "stddev_over_time") {
        Some(RangeFunc::StddevOverTime)
    } else if str_eq(name, "stdvar_over_time") {
        Some(RangeFunc::StdvarOverTime)
    } else if str_eq(name, "quantile_over_time") {
        Some(RangeFunc::QuantileOverTime)
    } else if str_eq(name, "last_over_time") {
        Some(RangeFunc::LastOverTime)
    } else if str_eq(name, "first_over_time") {
        Some(RangeFunc::FirstOverTime)
    } else if str_eq(name, "delta") {
        Some(RangeFunc::Delta)
    } else if str_eq(name, "idelta") {
        Some(RangeFunc::Idelta)
    } else if str_eq(name, "deriv") {
        Some(RangeFunc::Deriv)
    } else if str_eq(name, "predict_linear") {
        Some(RangeFunc::PredictLinear)
    } else if str_eq(name, "changes") {
        Some(RangeFunc::Changes)
    } else if str_eq(name, "resets") {
        Some(RangeFunc::Resets)
    } else if str_eq(name, "absent_over_time") {
        Some(RangeFunc::AbsentOverTime)
    } else if str_eq(name, "present_over_time") {
        Some(RangeFunc::PresentOverTime)
    } else {
        None
    }
}

/// The scalar function called `name`.
pub open spec fn scalar_func_named(name: Seq<char>) -> Option<ScalarFunc> {
    if name == "abs"@ {
        Some(ScalarFunc::Abs)
    } else if name == "ceil"@ {
        Some(ScalarFunc::Ceil)
    } else if name == "floor"@ {
        Some(ScalarFunc::Floor)
    } else if name == "round"@ {
        Some(ScalarFunc::Round)
    } else if name == "sqrt"@ {
        Some(ScalarFunc::Sqrt)
    } else if name == "exp"@ {
        Some(ScalarFunc::Exp)
    } else if name == "ln"@ {
        Some(ScalarFunc::Ln)
    } else if name == "log2"@ {
        Some(ScalarFunc::Log2)
    } else if name == "log10"@ {
        Some(ScalarFunc::Log10)
    } else if name == "sgn"@ {
        Some(ScalarFunc::Sgn)
    } else if name == "clamp_min"@ {
        Some(ScalarFunc::ClampMin)
    } else if name == "clamp_max"@ {
        Some(ScalarFunc::ClampMax)
    } else if name == "clamp"@ {
        Some(ScalarFunc::Clamp)
    } else if name == "histogram_quantile"@ {
        Some(ScalarFunc::HistogramQuantile)
    } else if name == "sin"@ {
        Some(ScalarFunc::Sin)
    } else if name == "cos"@ {
        Some(ScalarFunc::Cos)
    } else if name == "asin"@ {
        Some(ScalarFunc::Asin)
    } else if name == "acos"@ {
        Some(ScalarFunc::Acos)
    } else if name == "atan2"@ {
        Some(ScalarFunc::Atan2)
    } else if name == "sinh"@ {
        Some(ScalarFunc::Sinh)
    } else if name == "cosh"@ {
        Some(ScalarFunc::Cosh)
    } else if name == "asinh"@ {
        Some(ScalarFunc::Asinh)
    } else if name == "acosh"@ {
        Some(ScalarFunc::Acosh)
    } else if name == "atanh"@ {
        Some(ScalarFunc::Atanh)
    } else if name == "deg"@ {
        Some(ScalarFunc::Deg)
    } else if name == "rad"@ {
        Some(ScalarFunc::Rad)
    } else if name == "pi"@ {
        Some(ScalarFunc::Pi)
    } else if name == "timestamp"@ {
        Some(ScalarFunc::Timestamp)
    } else {
        None
    }
}

/// The scalar function called `name`, if there is one.
pub fn to_scalar_func(name: &str) -> (r: Option<ScalarFunc>)
    ensures
        r == scalar_func_named(name@),
{
    if str_eq(name, "abs") {
        Some(ScalarFunc::Abs)
    } else if str_eq(name, "ceil") {
        Some(ScalarFunc::Ceil)
    } else if str_eq(name, "floor") {
        Some(ScalarFunc::Floor)
    } else if str_eq(name, "round") {
        Some(ScalarFunc::Round)
    } else if str_eq(name, "sqrt") {
        Some(ScalarFunc::Sqrt)
    } else if str_eq(name, "exp") {
        Some(ScalarFunc::Exp)
    } else if str_eq(name, "ln") {
        Some(ScalarFunc::Ln)
    } else if str_eq(name, "log2") {
        Some(ScalarFunc::Log2)
    } else if str_eq(name, "log10") {
        Some(ScalarFunc::Log10)
    } else if str_eq(name, "sgn") {
        Some(ScalarFunc::Sgn)
    } else if str_eq(name, "clamp_min") {
        Some(ScalarFunc::ClampMin)
    } else if str_eq(name, "clamp_max") {
        Some(ScalarFunc::ClampMax)
    } else if str_eq(name, "clamp") {
        Some(ScalarFunc::Clamp)
    } else if str_eq(name, "histogram_quantile") {
        Some(ScalarFunc::HistogramQuantile)
    } else if str_eq(name, "sin") {
        Some(ScalarFunc::Sin)
    } else if str_eq(name, "cos") {
        Some(ScalarFunc::Cos)
    } else if str_eq(name, "asin") {
        Some(ScalarFunc::Asin)
    } else if str_eq(name, "acos") {
        Some(ScalarFunc::Acos)
    } else if str_eq(name, "atan2") {
        Some(ScalarFunc::Atan2)
    } else if str_eq(name, "sinh") {
        Some(ScalarFunc::Sinh)
    } else if str_eq(name, "cosh") {
        Some(ScalarFunc::Cosh)
    } else if str_eq(name, "asinh") {
        Some(ScalarFunc::Asinh)
    } else if str_eq(name, "acosh") {
        Some(ScalarFunc::Acosh)
    } else if str_eq(name, "atanh") {
        Some(ScalarFunc::Atanh)
    } else if str_eq(name, "deg") {
        Some(ScalarFunc::Deg)
    } else if str_eq(name, "rad") {
        Some(ScalarFunc::Rad)
    } else if str_eq(name, "pi") {
        Some(ScalarFunc::Pi)
    } else if str_eq(name, "timestamp") {
        Some(ScalarFunc::Timestamp)
    } else {
        None
    }
}

/// The aggregation operator called `name`.
pub open spec fn agg_op_named(name: Seq<char>) -> Option<AggOp> {
    if name == "sum"@ {
        Some(AggOp::Sum)
    } else if name == "avg"@ {
        Some(AggOp::Avg)
    } else if name == "min"@ {
        Some(AggOp::Min)
    } else if name == "max"@ {
        Some(AggOp::Max)
    } else if name == "count"@ {
        Some(AggOp::Count)
    } else if name == "stddev"@ {
        Some(AggOp::Stddev)
    } else if name == "stdvar"@ {
        Some(AggOp::Stdvar)
    } else if name == "quantile"@ {
        Some(AggOp::Quantile)
    } else if name == "topk"@ {
        Some(AggOp::Topk)
    } else if name == "bottomk"@ {
        Some(AggOp::Bottomk)
    } else if name == "group"@ {
        Some(AggOp::Group)
    } else if name == "count_values"@ {
        Some(AggOp::CountValues)
    } else {
        None
    }
}

/// The aggregation operator called `name`, if there is one.
pub fn to_agg_op(name: &str) -> (r: Option<AggOp>)
    ensures
        r == agg_op_named(name@),
{
    if str_eq(name, "sum") {
        Some(AggOp::Sum)
    } else if str_eq(name, "avg") {
        Some(AggOp::Avg)
    } else if str_eq(name, "min") {
        Some(AggOp::Min)
    } else if str_eq(name, "max") {
        Some(AggOp::Max)
    } else if str_eq(name, "count") {
        Some(AggOp::Count)
    } else if str_eq(name, "stddev") {
        Some(AggOp::Stddev)
    } else if str_eq(name, "stdvar") {
        Some(AggOp::Stdvar)
    } else if str_eq(name, "quantile") {
        Some(AggOp::Quantile)
    } else if str_eq(name, "topk") {
        Some(AggOp::Topk)
    } else if str_eq(name, "bottomk") {
        Some(AggOp::Bottomk)
    } else if str_eq(name, "group") {
        Some(AggOp::Group)
    } else if str_eq(name, "count_values") {
        Some(AggOp::CountValues)
    } else {
        None
    }
}

/// What a range function yields on a window of a given size, before any
/// sample value is read.
#[derive(PartialEq, Eq, Structural, Clone, Copy, Debug)]
pub enum WindowValue {
    /// No output point for the series at this step.
    NoPoint,
    /// The value is this count (presence, absence, number of samples).
    Count(usize),
    /// The value must be computed from the samples.
    Compute,
}

/// Whether a range function needs at least two samples.
pub open spec fn needs_two(f: RangeFunc) -> bool {
    match f {
        RangeFunc::Rate | RangeFunc::Irate | RangeFunc::Increase | RangeFunc::Delta
        | RangeFunc::Idelta | RangeFunc::Deriv | RangeFunc::PredictLinear => true,
        _ => false,
    }
}

/// What range function `f` yields on a window of `n` samples.
pub open spec fn window_value_of(f: RangeFunc, n: nat) -> WindowValue {
    match f {
        RangeFunc::AbsentOverTime => if n == 0 { WindowValue::Count(1) } else { WindowValue::NoPoint },
        RangeFunc::PresentOverTime => if n == 0 { WindowValue::NoPoint } else { WindowValue::Count(1) },
        RangeFunc::CountOverTime => if n == 0 { WindowValue::NoPoint } else { WindowValue::Count(n as usize) },
        _ => if n == 0 || (needs_two(f) && n < 2) { WindowValue::NoPoint } else { WindowValue::Compute },
    }
}

impl RangeFunc {
    /// What this function yields on a window of `n` samples: no point, a
    /// count, or a value to compute from the samples.
    pub fn window_value(&self, n: usize) -> (r: WindowValue)
        ensures
            r == window_value_of(*self, n as nat),
    {
        match self {
            RangeFunc::AbsentOverTime => if n == 0 { WindowValue::Count(1) } else { WindowValue::NoPoint },
            RangeFunc::PresentOverTime => if n == 0 { WindowValue::NoPoint } else { WindowValue::Count(1) },
            RangeFunc::CountOverTime => if n == 0 { WindowValue::NoPoint } else { WindowValue::Count(n) },
            RangeFunc::Rate | RangeFunc::Irate | RangeFunc::Increase | RangeFunc::Delta
            | RangeFunc::Idelta | RangeFunc::Deriv | RangeFunc::PredictLinear => {
                if n < 2 { WindowValue::NoPoint } else { WindowValue::Compute }
            },
            _ => if n == 0 { WindowValue::NoPoint } else { WindowValue::Compute },
        }
    }

    /// The argument positions of a call: the range vector, and the numeric
    /// parameter if the function takes one (`quantile_over_time(q, m)`,
    /// `predict_linear(m, t)`).
    pub fn argument_positions(&self) -> (r: (usize, Option<usize>))
        ensures
            r == (match *self {
                RangeFunc::QuantileOverTime => (1usize, Some(0usize)),
                RangeFunc::PredictLinear => (0usize, Some(1usize)),
                _ => (0usize, None),
            }),
    {
        match self {
            RangeFunc::QuantileOverTime => (1, Some(0)),
            RangeFunc::PredictLinear => (0, Some(1)),
            _ => (0, None),
        }
    }
}

/// An empty window yields no output point for every range function but
/// `absent_over_time`, which yields one.
pub proof fn lemma_empty_window(f: RangeFunc)
    ensures
        window_value_of(f, 0) == (if f == RangeFunc::AbsentOverTime {
            WindowValue::Count(1)
        } else {
            WindowValue::NoPoint
        }),
{
}

/// Where the arguments of a scalar-function call stand: the series argument,
/// and the numeric parameters in order.
pub struct ScalarArgs {
    pub inner: usize,
    pub params: Vec<usize>,
}

/// The argument layout of scalar function `f` called with `n` arguments, as
/// (series position, parameter positions); `None` for a wrong arity.
pub open spec fn scalar_args_of(f: ScalarFunc, n: nat) -> Option<(usize, Seq<usize>)> {
    match f {
        ScalarFunc::HistogramQuantile => if n == 2 { Some((1usize, seq![0usize])) } else { None },
        ScalarFunc::ClampMin | ScalarFunc::ClampMax => if n == 2 { Some((0usize, seq![1usize])) } else { None },
        ScalarFunc::Clamp => if n == 3 { Some((0usize, seq![1usize, 2usize])) } else { None },
        ScalarFunc::Round => if n == 1 {
            Some((0usize, seq![]))
        } else if n == 2 {
            Some((0usize, seq![1usize]))
        } else {
            None
        },
        _ => if n >= 1 { Some((0usize, seq![])) } else { None },
    }
}

impl ScalarFunc {
    /// The argument layout of a call with `n` arguments, or `None` when the
    /// function does not take that many.
    pub fn argument_layout(&self, n: usize) -> (r: Option<ScalarArgs>)
        ensures
            match scalar_args_of(*self, n as nat) {
                Some((i, ps)) => r matches Some(a) && a.inner == i && a.params@ == ps,
                None => r is None,
            },
    {
        match self {
            ScalarFunc::HistogramQuantile => if n == 2 {
                let params = vec![0usize];
                assert(params@ =~= seq![0usize]);
                Some(ScalarArgs { inner: 1, params })
            } else {
                None
            },
            ScalarFunc::ClampMin | ScalarFunc::ClampMax => if n == 2 {
                let params = vec![1usize];
                assert(params@ =~= seq![1usize]);
                Some(ScalarArgs { inner: 0, params })
            } else {
                None
            },
            ScalarFunc::Clamp => if n == 3 {
                let params = vec![1usize, 2usize];
                assert(params@ =~= seq![1usize, 2usize]);
                Some(ScalarArgs { inner: 0, params })
            } else {
                None
            },
            ScalarFunc::Round => if n == 1 {
                let params: Vec<usize> = Vec::new();
                assert(params@ =~= Seq::<usize>::empty());
                Some(ScalarArgs { inner: 0, params })
            } else if n == 2 {
                let params = vec![1usize];
                assert(params@ =~= seq![1usize]);
                Some(ScalarArgs { inner: 0, params })
            } else {
                None
            },
            _ => if n >= 1 {
                let params: Vec<usize> = Vec::new();
                assert(params@ =~= Seq::<usize>::empty());
                Some(ScalarArgs { inner: 0, params })
            } else {
                None
            },
        }
    }
}

/// Binary operators.
#[derive(PartialEq, Eq, Structural, Clone, Copy, Debug)]
pub enum BinaryOp {
    Add,
    Sub,
    Mul,
    Div,
    Mod,
    Pow,
    Eql,
    Neq,
    Lss,
    Gtr,
    Lte,
    Gte,
    And,
    Or,
    Unless,
}

/// The binary operator written `name`.
pub open spec fn binary_op_named(name: Seq<char>) -> Option<BinaryOp> {
    if name == "+"@ {
        Some(BinaryOp::Add)
    } else if name == "-"@ {
        Some(BinaryOp::Sub)
    } else if name == "*"@ {
        Some(BinaryOp::Mul)
    } else if name == "/"@ {
        Some(BinaryOp::Div)
    } else if name == "%"@ {
        Some(BinaryOp::Mod)
    } else if name == "^"@ {
        Some(BinaryOp::Pow)
    } else if name == "=="@ {
        Some(BinaryOp::Eql)
    } else if name == "!="@ {
        Some(BinaryOp::Neq)
    } else if name == "<"@ {
        Some(BinaryOp::Lss)
    } else if name == ">"@ {
        Some(BinaryOp::Gtr)
    } else if name == "<="@ {
        Some(BinaryOp::Lte)
    } else if name == ">="@ {
        Some(BinaryOp::Gte)
    } else if name == "and"@ {
        Some(BinaryOp::And)
    } else if name == "or"@ {
        Some(BinaryOp::Or)
    } else if name == "unless"@ {
        Some(BinaryOp::Unless)
    } else {
        None
    }
}

/// The binary operator written `name`, if there is one.
pub fn to_binary_op(name: &str) -> (r: Option<BinaryOp>)
    ensures
        r == binary_op_named(name@),
{
    if str_eq(name, "+") {
        Some(BinaryOp::Add)
    } else if str_eq(name, "-") {
        Some(BinaryOp::Sub)
    } else if str_eq(name, "*") {
        Some(BinaryOp::Mul)
    } else if str_eq(name, "/") {
        Some(BinaryOp::Div)
    } else if str_eq(name, "%") {
        Some(BinaryOp::Mod)
    } else if str_eq(name, "^") {
        Some(BinaryOp::Pow)
    } else if str_eq(name, "==") {
        Some(BinaryOp::Eql)
    } else if str_eq(name, "!=") {
        Some(BinaryOp::Neq)
    } else if str_eq(name, "<") {
        Some(BinaryOp::Lss)
    } else if str_eq(name, ">") {
        Some(BinaryOp::Gtr)
    } else if str_eq(name, "<=") {
        Some(BinaryOp::Lte)
    } else if str_eq(name, ">=") {
        Some(BinaryOp::Gte)
    } else if str_eq(name, "and") {
        Some(BinaryOp::And)
    } else if str_eq(name, "or") {
        Some(BinaryOp::Or)
    } else if str_eq(name, "unless") {
        Some(BinaryOp::Unless)
    } else {
        None
    }
}

impl BinaryOp {
    /// The set operator this is, if it is one.
    pub fn set_op(&self) -> (r: Option<SetOp>)
        ensures
            r == (match *self {
                BinaryOp::And => Some(SetOp::And),
                BinaryOp::Or => Some(SetOp::Or),
                BinaryOp::Unless => Some(SetOp::Unless),
                _ => None,
            }),
    {
        match self {
            BinaryOp::And => Some(SetOp::And),
            BinaryOp::Or => Some(SetOp::Or),
            BinaryOp::Unless => Some(SetOp::Unless),
            _ => None,
        }
    }

    /// Whether this is a comparison operator.
    pub fn is_comparison(&self) -> (r: bool)
        ensures
            r == (match *self {
                BinaryOp::Eql | BinaryOp::Neq | BinaryOp::Lss | BinaryOp::Gtr | BinaryOp::Lte
                | BinaryOp::Gte => true,
                _ => false,
            }),
    {
        match self {
            BinaryOp::Eql | BinaryOp::Neq | BinaryOp::Lss | BinaryOp::Gtr | BinaryOp::Lte
            | BinaryOp::Gte => true,
            _ => false,
        }
    }
}

/// Which evaluation rule a binary expression follows.
#[derive(PartialEq, Eq, Structural, Clone, Copy, Debug)]
pub enum BinaryShape {
    /// `and` / `or` / `unless` on whole series.
    SetOperation(SetOp),
    /// Both operands are scalars.
    ScalarScalar,
    /// One operand is a scalar, applied to every series of the other.
    VectorScalar { scalar_on_lhs: bool },
    /// Both operands are vectors, matched by signature.
    VectorVector,
}

/// An operand is a scalar: a single series with no labels.
pub open spec fn is_scalar_operand(labels: Seq<Seq<(Seq<char>, Seq<char>)>>) -> bool {
    labels.len() == 1 && labels[0].len() == 0
}

/// The rule for operator `op` on operands with these label sets.
pub open spec fn binary_shape_of(
    op: BinaryOp,
    lhs: Seq<Seq<(Seq<char>, Seq<char>)>>,
    rhs: Seq<Seq<(Seq<char>, Seq<char>)>>,
) -> BinaryShape {
    match op {
        BinaryOp::And => BinaryShape::SetOperation(SetOp::And),
        BinaryOp::Or => BinaryShape::SetOperation(SetOp::Or),
        BinaryOp::Unless => BinaryShape::SetOperation(SetOp::Unless),
        _ => if is_scalar_operand(lhs) && is_scalar_operand(rhs) {
            BinaryShape::ScalarScalar
        } else if is_scalar_operand(rhs) {
            BinaryShape::VectorScalar { scalar_on_lhs: false }
        } else if is_scalar_operand(lhs) {
            BinaryShape::VectorScalar { scalar_on_lhs: true }
        } else {
            BinaryShape::VectorVector
        },
    }
}

fn scalar_operand(labels: &Vec<LabelSet>) -> (r: bool)
    ensures
        r == is_scalar_operand(label_sets_view(labels@)),
{
    labels.len() == 1 && labels[0].is_empty()
}

/// Which evaluation rule binary operator `op` follows on operands with the
/// given series label sets.
pub fn binary_shape(op: BinaryOp, lhs: &Vec<LabelSet>, rhs: &Vec<LabelSet>) -> (r: BinaryShape)
    ensures
        r == binary_shape_of(op, label_sets_view(lhs@), label_sets_view(rhs@)),
{
    match op.set_op() {
        Some(s) => BinaryShape::SetOperation(s),
        None => {
            let l = scalar_operand(lhs);
            let r = scalar_operand(rhs);
            if l && r {
                BinaryShape::ScalarScalar
            } else if r {
                BinaryShape::VectorScalar { scalar_on_lhs: false }
            } else if l {
                BinaryShape::VectorScalar { scalar_on_lhs: true }
            } else {
                BinaryShape::VectorVector
            }
        },
    }
}

/// What a comparison does with one pair of values.
#[derive(PartialEq, Eq, Structural, Clone, Copy, Debug)]
pub enum ComparisonOutcome {
    /// Keep the point, with the left operand's value.
    KeepLeft,
    /// Drop the point.
    Drop,
    /// The point's value is 1.
    One,
    /// The point's value is 0.
    Zero,
}

/// With the `bool` modifier a comparison yields 1 or 0; without it, it
/// keeps the points where it holds (with the left value) and drops the rest.
pub fn comparison_outcome(holds: bool, return_bool: bool) -> (r: ComparisonOutcome)
    ensures
        r == (if return_bool {
            if holds { ComparisonOutcome::One } else { ComparisonOutcome::Zero }
        } else if holds {
            ComparisonOutcome::KeepLeft
        } else {
            ComparisonOutcome::Drop
        }),
{
    if return_bool {
        if holds { ComparisonOutcome::One } else { ComparisonOutcome::Zero }
    } else if holds {
        ComparisonOutcome::KeepLeft
    } else {
        ComparisonOutcome::Drop
    }
}

} // verus!
