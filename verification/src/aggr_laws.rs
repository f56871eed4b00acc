//! Массив значений для привязки условий `In`/`NotIn`: все значения одного типа, по порядку.
use crate::date_time::{AsezDate, AsezTimestamp};
use crate::value::{aggr_of, AggrModel, ValueModel};
use vstd::prelude::*;

verus! {

/// Значения типа `Uuid` среди `vs`, по порядку (остальные пропускаются).
pub open spec fn uuid_values(vs: Seq<ValueModel>) -> Seq<u128> {
    vs.filter_map(|v: ValueModel| match v {
        ValueModel::Uuid(x) => Some(x),
        _ => None,
    })
}

/// Массив из значений типа `Uuid` (среди них могут быть `Null`): массив типа
/// `Uuid`, в котором ровно все не-`Null` значения по порядку (его длина -- их
/// число, `k`-й элемент -- `k`-е значение); без таких значений массива нет
/// (`Null`). Это то, что `AggrValue::build` привязывает к `=ANY($n)`.
pub proof fn lemma_uuid_array(vs: Seq<ValueModel>)
    requires
        forall|i: int| 0 <= i < vs.len() ==> #[trigger] vs[i] is Uuid || vs[i] is Null,
    ensures
        aggr_of(vs) == (if uuid_values(vs).len() == 0 {
            AggrModel::Null
        } else {
            AggrModel::Uuid(uuid_values(vs))
        }),
    decreases vs.len(),
{
    if vs.len() > 0 {
        let rest = vs.drop_last();
        assert forall|i: int| 0 <= i < rest.len() implies #[trigger] rest[i] is Uuid || rest[i] is Null by {
            assert(rest[i] == vs[i]);
        }
        lemma_uuid_array(rest);
        assert(vs[vs.len() - 1] is Uuid || vs[vs.len() - 1] is Null);
        assert(aggr_of(vs) == crate::value::aggr_step(aggr_of(rest), vs.last()));
        if vs.last() is Uuid {
            let x = vs.last()->Uuid_0;
            assert(uuid_values(vs) =~= uuid_values(rest).push(x));
            if uuid_values(rest).len() == 0 {
                assert(uuid_values(vs) =~= seq![x]);
            }
        } else {
            assert(uuid_values(vs) =~= uuid_values(rest));
        }
    }
}

/// Значения типа `Int` среди `vs`, по порядку (остальные пропускаются).
pub open spec fn int_values(vs: Seq<ValueModel>) -> Seq<i64> {
    vs.filter_map(|v: ValueModel| match v {
        ValueModel::Int(x) => Some(x),
        _ => None,
    })
}

/// Массив из значений типа `Int` (среди них могут быть `Null`): массив типа
/// `Int`, в котором ровно все не-`Null` значения по порядку (его длина -- их
/// число, `k`-й элемент -- `k`-е значение); без таких значений массива нет
/// (`Null`). Это то, что `AggrValue::build` привязывает к `=ANY($n)`.
pub proof fn lemma_int_array(vs: Seq<ValueModel>)
    requires
        forall|i: int| 0 <= i < vs.len() ==> #[trigger] vs[i] is Int || vs[i] is Null,
    ensures
        aggr_of(vs) == (if int_values(vs).len() == 0 {
            AggrModel::Null
        } else {
            AggrModel::Int(int_values(vs))
        }),
    decreases vs.len(),
{
    if vs.len() > 0 {
        let rest = vs.drop_last();
        assert forall|i: int| 0 <= i < rest.len() implies #[trigger] rest[i] is Int || rest[i] is Null by {
            assert(rest[i] == vs[i]);
        }
        lemma_int_array(rest);
        assert(vs[vs.len() - 1] is Int || vs[vs.len() - 1] is Null);
        assert(aggr_of(vs) == crate::value::aggr_step(aggr_of(rest), vs.last()));
        if vs.last() is Int {
            let x = vs.last()->Int_0;
            assert(int_values(vs) =~= int_values(rest).push(x));
            if int_values(rest).len() == 0 {
                assert(int_values(vs) =~= seq![x]);
            }
        } else {
            assert(int_values(vs) =~= int_values(rest));
        }
    }
}

/// Значения типа `String` среди `vs`, по порядку (остальные пропускаются).
pub open spec fn string_values(vs: Seq<ValueModel>) -> Seq<Seq<char>> {
    vs.filter_map(|v: ValueModel| match v {
        ValueModel::String(x) => Some(x),
        _ => None,
    })
}

/// Массив из значений типа `String` (среди них могут быть `Null`): массив типа
/// `String`, в котором ровно все не-`Null` значения по порядку (его длина -- их
/// число, `k`-й элемент -- `k`-е значение); без таких значений массива нет
/// (`Null`). Это то, что `AggrValue::build` привязывает к `=ANY($n)`.
pub proof fn lemma_string_array(vs: Seq<ValueModel>)
    requires
        forall|i: int| 0 <= i < vs.len() ==> #[trigger] vs[i] is String || vs[i] is Null,
    ensures
        aggr_of(vs) == (if string_values(vs).len() == 0 {
            AggrModel::Null
        } else {
            AggrModel::String(string_values(vs))
        }),
    decreases vs.len(),
{
    if vs.len() > 0 {
        let rest = vs.drop_last();
        assert forall|i: int| 0 <= i < rest.len() implies #[trigger] rest[i] is String || rest[i] is Null by {
            assert(rest[i] == vs[i]);
        }
        lemma_string_array(rest);
        assert(vs[vs.len() - 1] is String || vs[vs.len() - 1] is Null);
        assert(aggr_of(vs) == crate::value::aggr_step(aggr_of(rest), vs.last()));
        if vs.last() is String {
            let x = vs.last()->String_0;
            assert(string_values(vs) =~= string_values(rest).push(x));
            if string_values(rest).len() == 0 {
                assert(string_values(vs) =~= seq![x]);
            }
        } else {
            assert(string_values(vs) =~= string_values(rest));
        }
    }
}

/// Значения типа `Float` среди `vs`, по порядку (остальные пропускаются).
pub open spec fn float_values(vs: Seq<ValueModel>) -> Seq<Seq<char>> {
    vs.filter_map(|v: ValueModel| match v {
        ValueModel::Float(x) => Some(x),
        _ => None,
    })
}

/// Массив из значений типа `Float` (среди них могут быть `Null`): массив типа
/// `Float`, в котором ровно все не-`Null` значения по порядку (его длина -- их
/// число, `k`-й элемент -- `k`-е значение); без таких значений массива нет
/// (`Null`). Это то, что `AggrValue::build` привязывает к `=ANY($n)`.
pub proof fn lemma_float_array(vs: Seq<ValueModel>)
    requires
        forall|i: int| 0 <= i < vs.len() ==> #[trigger] vs[i] is Float || vs[i] is Null,
    ensures
        aggr_of(vs) == (if float_values(vs).len() == 0 {
            AggrModel::Null
        } else {
            AggrModel::Float(float_values(vs))
        }),
    decreases vs.len(),
{
    if vs.len() > 0 {
        let rest = vs.drop_last();
        assert forall|i: int| 0 <= i < rest.len() implies #[trigger] rest[i] is Float || rest[i] is Null by {
            assert(rest[i] == vs[i]);
        }
        lemma_float_array(rest);
        assert(vs[vs.len() - 1] is Float || vs[vs.len() - 1] is Null);
        assert(aggr_of(vs) == crate::value::aggr_step(aggr_of(rest), vs.last()));
        if vs.last() is Float {
            let x = vs.last()->Float_0;
            assert(float_values(vs) =~= float_values(rest).push(x));
            if float_values(rest).len() == 0 {
                assert(float_values(vs) =~= seq![x]);
            }
        } else {
            assert(float_values(vs) =~= float_values(rest));
        }
    }
}

/// Значения типа `Bool` среди `vs`, по порядку (остальные пропускаются).
pub open spec fn bool_values(vs: Seq<ValueModel>) -> Seq<bool> {
    vs.filter_map(|v: ValueModel| match v {
        ValueModel::Bool(x) => Some(x),
        _ => None,
    })
}

/// Массив из значений типа `Bool` (среди них могут быть `Null`): массив типа
/// `Bool`, в котором ровно все не-`Null` значения по порядку (его длина -- их
/// число, `k`-й элемент -- `k`-е значение); без таких значений массива нет
/// (`Null`). Это то, что `AggrValue::build` привязывает к `=ANY($n)`.
pub proof fn lemma_bool_array(vs: Seq<ValueModel>)
    requires
        forall|i: int| 0 <= i < vs.len() ==> #[trigger] vs[i] is Bool || vs[i] is Null,
    ensures
        aggr_of(vs) == (if bool_values(vs).len() == 0 {
            AggrModel::Null
        } else {
            AggrModel::Bool(bool_values(vs))
        }),
    decreases vs.len(),
{
    if vs.len() > 0 {
        let rest = vs.drop_last();
        assert forall|i: int| 0 <= i < rest.len() implies #[trigger] rest[i] is Bool || rest[i] is Null by {
            assert(rest[i] == vs[i]);
        }
        lemma_bool_array(rest);
        assert(vs[vs.len() - 1] is Bool || vs[vs.len() - 1] is Null);
        assert(aggr_of(vs) == crate::value::aggr_step(aggr_of(rest), vs.last()));
        if vs.last() is Bool {
            let x = vs.last()->Bool_0;
            assert(bool_values(vs) =~= bool_values(rest).push(x));
            if bool_values(rest).len() == 0 {
                assert(bool_values(vs) =~= seq![x]);
            }
        } else {
            assert(bool_values(vs) =~= bool_values(rest));
        }
    }
}

/// Значения типа `Date` среди `vs`, по порядку (остальные пропускаются).
pub open spec fn date_values(vs: Seq<ValueModel>) -> Seq<AsezDate> {
    vs.filter_map(|v: ValueModel| match v {
        ValueModel::Date(x) => Some(x),
        _ => None,
    })
}

/// Массив из значений типа `Date` (среди них могут быть `Null`): массив типа
/// `Date`, в котором ровно все не-`Null` значения по порядку (его длина -- их
/// число, `k`-й элемент -- `k`-е значение); без таких значений массива нет
/// (`Null`). Это то, что `AggrValue::build` привязывает к `=ANY($n)`.
pub proof fn lemma_date_array(vs: Seq<ValueModel>)
    requires
        forall|i: int| 0 <= i < vs.len() ==> #[trigger] vs[i] is Date || vs[i] is Null,
    ensures
        aggr_of(vs) == (if date_values(vs).len() == 0 {
            AggrModel::Null
        } else {
            AggrModel::Date(date_values(vs))
        }),
    decreases vs.len(),
{
    if vs.len() > 0 {
        let rest = vs.drop_last();
        assert forall|i: int| 0 <= i < rest.len() implies #[trigger] rest[i] is Date || rest[i] is Null by {
            assert(rest[i] == vs[i]);
        }
        lemma_date_array(rest);
        assert(vs[vs.len() - 1] is Date || vs[vs.len() - 1] is Null);
        assert(aggr_of(vs) == crate::value::aggr_step(aggr_of(rest), vs.last()));
        if vs.last() is Date {
            let x = vs.last()->Date_0;
            assert(date_values(vs) =~= date_values(rest).push(x));
            if date_values(rest).len() == 0 {
                assert(date_values(vs) =~= seq![x]);
            }
        } else {
            assert(date_values(vs) =~= date_values(rest));
        }
    }
}

/// Значения типа `Timestamp` среди `vs`, по порядку (остальные пропускаются).
pub open spec fn timestamp_values(vs: Seq<ValueModel>) -> Seq<AsezTimestamp> {
    vs.filter_map(|v: ValueModel| match v {
        ValueModel::Timestamp(x) => Some(x),
        _ => None,
    })
}

/// Массив из значений типа `Timestamp` (среди них могут быть `Null`): массив типа
/// `Timestamp`, в котором ровно все не-`Null` значения по порядку (его длина -- их
/// число, `k`-й элемент -- `k`-е значение); без таких значений массива нет
/// (`Null`). Это то, что `AggrValue::build` привязывает к `=ANY($n)`.
pub proof fn lemma_timestamp_array(vs: Seq<ValueModel>)
    requires
        forall|i: int| 0 <= i < vs.len() ==> #[trigger] vs[i] is Timestamp || vs[i] is Null,
    ensures
        aggr_of(vs) == (if timestamp_values(vs).len() == 0 {
            AggrModel::Null
        } else {
            AggrModel::Timestamp(timestamp_values(vs))
        }),
    decreases vs.len(),
{
    if vs.len() > 0 {
        let rest = vs.drop_last();
        assert forall|i: int| 0 <= i < rest.len() implies #[trigger] rest[i] is Timestamp || rest[i] is Null by {
            assert(rest[i] == vs[i]);
        }
        lemma_timestamp_array(rest);
        assert(vs[vs.len() - 1] is Timestamp || vs[vs.len() - 1] is Null);
        assert(aggr_of(vs) == crate::value::aggr_step(aggr_of(rest), vs.last()));
        if vs.last() is Timestamp {
            let x = vs.last()->Timestamp_0;
            assert(timestamp_values(vs) =~= timestamp_values(rest).push(x));
            if timestamp_values(rest).len() == 0 {
                assert(timestamp_values(vs) =~= seq![x]);
            }
        } else {
            assert(timestamp_values(vs) =~= timestamp_values(rest));
        }
    }
}

/// Массивы `Vec64` среди `vs`, по порядку.
pub open spec fn vec64_arrays(vs: Seq<ValueModel>) -> Seq<Seq<i64>> {
    vs.filter_map(|v: ValueModel| match v {
        ValueModel::Vec64(x) => Some(x),
        _ => None,
    })
}

/// Значения-массивы `Vec64` (среди них могут быть `Null`) дают один массив --
/// все их элементы подряд, в порядке значений; без таких значений -- `Null`.
pub proof fn lemma_vec64_array(vs: Seq<ValueModel>)
    requires
        forall|i: int| 0 <= i < vs.len() ==> #[trigger] vs[i] is Vec64 || vs[i] is Null,
    ensures
        aggr_of(vs) == (if vec64_arrays(vs).len() == 0 {
            AggrModel::Null
        } else {
            AggrModel::Vec64(vec64_arrays(vs).flatten())
        }),
    decreases vs.len(),
{
    if vs.len() > 0 {
        let rest = vs.drop_last();
        assert forall|i: int| 0 <= i < rest.len() implies #[trigger] rest[i] is Vec64 || rest[i] is Null by {
            assert(rest[i] == vs[i]);
        }
        lemma_vec64_array(rest);
        assert(vs[vs.len() - 1] is Vec64 || vs[vs.len() - 1] is Null);
        assert(aggr_of(vs) == crate::value::aggr_step(aggr_of(rest), vs.last()));
        if vs.last() is Vec64 {
            let x = vs.last()->Vec64_0;
            assert(vec64_arrays(vs) =~= vec64_arrays(rest).push(x));
            vec64_arrays(vs).lemma_flatten_and_flatten_alt_are_equivalent();
            vec64_arrays(rest).lemma_flatten_and_flatten_alt_are_equivalent();
            assert(vec64_arrays(vs).drop_last() =~= vec64_arrays(rest));
            if vec64_arrays(rest).len() == 0 {
                assert(vec64_arrays(rest).flatten_alt() =~= Seq::<i64>::empty());
                assert(vec64_arrays(vs).flatten_alt() =~= x);
            }
        } else {
            assert(vec64_arrays(vs) =~= vec64_arrays(rest));
        }
    }
}

} // verus!
