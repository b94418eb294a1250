//! Executables: a unit that is run on demand for one value of a type,
//! which it reads as its current value.

use crate::text::Text;
use crate::unit::{BehaviorUnit, Param, ParamModel, UnitModel};
use vstd::prelude::*;
use vstd::string::*;

verus! {

/// How a type is made executable: running a boxed value of `target` runs
/// `function` once with that value as its current value, and gives what
/// the function gives, of type `output`.
#[derive(Debug, PartialEq, Eq)]
pub struct ExecutableImpl {
    pub target: String,
    pub function: String,
    pub output: String,
}

/// The mathematical value of an [`ExecutableImpl`].
pub struct ExecutableModel {
    pub target: Text,
    pub function: Text,
    pub output: Text,
}

impl View for ExecutableImpl {
    type V = ExecutableModel;

    open spec fn view(&self) -> ExecutableModel {
        ExecutableModel { target: self.target@, function: self.function@, output: self.output@ }
    }
}

/// The type under which an executable reads its current value: the boxed
/// target.
pub open spec fn boxed(target: Text) -> Text {
    "Box<"@ + target + ">"@
}

/// The result type of an executable: the declared one, or the unit type
/// where none is declared.
pub open spec fn output_type(declared: Option<Text>) -> Text {
    match declared {
        Some(ty) => ty,
        None => "()"@,
    }
}

/// The unit of an executable: the unit as written, with read access to
/// the current boxed value of `target` appended to its parameters.
pub open spec fn executable_unit(target: Text, unit: UnitModel) -> UnitModel {
    UnitModel { params: unit.params.push(ParamModel::Current { ty: boxed(target) }), ..unit }
}

/// Makes `target` executable through the unit `input`, whose declared
/// result type is `declared`: gives the implementation to emit and the
/// unit with its current-value parameter appended.
pub fn executable(target: &str, input: BehaviorUnit, declared: Option<String>) -> (out: (
    ExecutableImpl,
    BehaviorUnit,
))
    ensures
        out.0@ == (ExecutableModel {
            target: target@,
            function: input@.name,
            output: output_type(declared.deep_view()),
        }),
        out.1@ == executable_unit(target@, input@),
{
    let BehaviorUnit { name, tags, params, yields, layers, body } = input;
    let mut params = params;
    let ghost before = params.deep_view();
    let mut ty = String::from_str("Box<");
    ty.append(target);
    ty.append(">");
    params.push(Param::Current { ty });
    assert(params.deep_view() =~= before.push(ParamModel::Current { ty: boxed(target@) }));
    let output = match declared {
        Some(ty) => ty,
        None => String::from_str("()"),
    };
    (
        ExecutableImpl { target: String::from_str(target), function: name.clone(), output },
        BehaviorUnit { name, tags, params, yields, layers, body },
    )
}

} // verus!
