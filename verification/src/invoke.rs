//! The checks around calling a managed method and reading or writing a
//! field: which instance a call goes to, how its result may be read back,
//! what error a managed exception becomes, and where a field lives.

use vstd::prelude::*;
use vstd::string::*;
use crate::model::{Field, Method, Property, same_method};
use crate::class::Class;
use crate::text::{dec, push_dec, str_eq};

verus! {

/// The error of calling an instance method that has no instance.
pub open spec fn no_instance_error(name: Seq<char>) -> Seq<char> {
    "Method '"@ + name
        + "' is not static but no instance was provided. Use Object::method or set the instance manually."@
}

/// The error of passing `got` arguments where `expected` are declared.
pub open spec fn arg_count_error(expected: nat, got: nat) -> Seq<char> {
    "Argument count mismatch: expected "@ + dec(expected) + ", got "@ + dec(got)
}

/// How the return type of a method is represented.
#[derive(Debug)]
pub enum ReturnKind {
    /// No managed class: an unmanaged, pointer-sized value
    Unmanaged,
    /// A value type whose class gives `value_size` bytes
    ValueType { value_size: i32 },
    /// A reference type
    Reference,
}

/// How to produce the value a call asked for from what it returned.
#[derive(Debug)]
pub enum ReturnRead {
    /// The caller asked for a zero-sized value
    Zero,
    /// The returned pointer itself is the value
    Pointer,
    /// Copy this many bytes out of the unboxed value
    Unboxed(usize),
}

/// How a call's result is read for a caller that asked for `requested`
/// bytes (pointers being `pointer_size` bytes), given the return kind and
/// whether the returned object and its unboxed value were null.
pub open spec fn return_read_of(
    m: Method,
    requested: nat,
    pointer_size: nat,
    kind: ReturnKind,
    result_null: bool,
    unboxed_null: bool,
) -> Result<ReturnRead, Seq<char>> {
    if requested == 0 {
        Ok(ReturnRead::Zero)
    } else {
        match kind {
            ReturnKind::Unmanaged => if requested != pointer_size {
                Err(
                    "Method '"@ + m.name@
                        + "' returns an unmanaged pointer-sized value, but caller requested "@
                        + dec(requested) + " bytes"@,
                )
            } else {
                Ok(ReturnRead::Pointer)
            },
            ReturnKind::ValueType { value_size } => if result_null {
                Err(
                    "Method '"@ + m.name@ + "' returned null for value type '"@
                        + m.return_type.name@ + "'"@,
                )
            } else if unboxed_null {
                Err(
                    "Method '"@ + m.name@ + "' returned a non-unboxable value for '"@
                        + m.return_type.name@ + "'"@,
                )
            } else {
                let expected: int = if m.return_type.size > 0 {
                    m.return_type.size as int
                } else {
                    value_size as usize as int
                };
                if requested != expected {
                    Err(
                        "Method '"@ + m.name@ + "' returns '"@ + m.return_type.name@ + "' ("@ + dec(
                            expected as nat,
                        ) + " bytes), but caller requested "@ + dec(requested) + " bytes"@,
                    )
                } else {
                    Ok(ReturnRead::Unboxed(requested as usize))
                }
            },
            ReturnKind::Reference => if requested != pointer_size {
                Err(
                    "Method '"@ + m.name@
                        + "' returns a reference type, but caller requested "@ + dec(requested)
                        + " bytes"@,
                )
            } else {
                Ok(ReturnRead::Pointer)
            },
        }
    }
}

/// The view of a result whose error is a `String`.
pub open spec fn read_view(r: Result<ReturnRead, String>) -> Result<ReturnRead, Seq<char>> {
    match r {
        Ok(v) => Ok(v),
        Err(e) => Err(e@),
    }
}

impl Method {
    /// The instance a call of this method with `param_count` arguments goes
    /// to (0 for a static method), or why it cannot be made: an instance
    /// method without an instance, or a wrong number of arguments.
    pub fn invocation_target(&self, param_count: usize) -> (r: Result<usize, String>)
        ensures
            !self.is_static && self.instance is None ==> (r matches Err(e) && e@
                == no_instance_error(self.name@)),
            (self.is_static || self.instance is Some) && param_count != self.args@.len() ==> (
            r matches Err(e) && e@ == arg_count_error(self.args@.len(), param_count as nat)),
            (self.is_static || self.instance is Some) && param_count == self.args@.len() ==> r
                == Ok::<usize, String>(
                if self.is_static {
                    0
                } else {
                    self.instance.unwrap()
                },
            ),
    {
        let instance = if self.is_static {
            0
        } else {
            match self.instance {
                Some(inst) => inst,
                None => {
                    let mut e = String::from_str("Method '");
                    e.append(self.name.as_str());
                    e.append(
                        "' is not static but no instance was provided. Use Object::method or set the instance manually.",
                    );
                    return Err(e);
                },
            }
        };
        if param_count != self.args.len() {
            let mut e = String::from_str("Argument count mismatch: expected ");
            push_dec(&mut e, self.args.len() as u128);
            e.append(", got ");
            push_dec(&mut e, param_count as u128);
            return Err(e);
        }
        Ok(instance)
    }

    /// How a call's result is read back for a caller that asked for
    /// `requested` bytes: nothing for a zero-sized value; the pointer itself
    /// for an unmanaged or reference return of pointer size; the unboxed
    /// bytes of a value type whose size (the return type's, else its
    /// class's) is the requested one; otherwise the reason it cannot be.
    pub fn read_return(
        &self,
        requested: usize,
        pointer_size: usize,
        kind: ReturnKind,
        result_null: bool,
        unboxed_null: bool,
    ) -> (r: Result<ReturnRead, String>)
        ensures
            read_view(r) == return_read_of(
                *self,
                requested as nat,
                pointer_size as nat,
                kind,
                result_null,
                unboxed_null,
            ),
    {
        if requested == 0 {
            return Ok(ReturnRead::Zero);
        }
        match kind {
            ReturnKind::Unmanaged => {
                if requested != pointer_size {
                    let mut e = String::from_str("Method '");
                    e.append(self.name.as_str());
                    e.append("' returns an unmanaged pointer-sized value, but caller requested ");
                    push_dec(&mut e, requested as u128);
                    e.append(" bytes");
                    return Err(e);
                }
                Ok(ReturnRead::Pointer)
            },
            ReturnKind::ValueType { value_size } => {
                if result_null {
                    let mut e = String::from_str("Method '");
                    e.append(self.name.as_str());
                    e.append("' returned null for value type '");
                    e.append(self.return_type.name.as_str());
                    e.append("'");
                    return Err(e);
                }
                if unboxed_null {
                    let mut e = String::from_str("Method '");
                    e.append(self.name.as_str());
                    e.append("' returned a non-unboxable value for '");
                    e.append(self.return_type.name.as_str());
                    e.append("'");
                    return Err(e);
                }
                let expected: usize = if self.return_type.size > 0 {
                    self.return_type.size as usize
                } else {
                    value_size as usize
                };
                if requested != expected {
                    let mut e = String::from_str("Method '");
                    e.append(self.name.as_str());
                    e.append("' returns '");
                    e.append(self.return_type.name.as_str());
                    e.append("' (");
                    push_dec(&mut e, expected as u128);
                    e.append(" bytes), but caller requested ");
                    push_dec(&mut e, requested as u128);
                    e.append(" bytes");
                    return Err(e);
                }
                Ok(ReturnRead::Unboxed(requested))
            },
            ReturnKind::Reference => {
                if requested != pointer_size {
                    let mut e = String::from_str("Method '");
                    e.append(self.name.as_str());
                    e.append("' returns a reference type, but caller requested ");
                    push_dec(&mut e, requested as u128);
                    e.append(" bytes");
                    return Err(e);
                }
                Ok(ReturnRead::Pointer)
            },
        }
    }
}

/// What became of asking a thrown exception for its message.
#[derive(Debug)]
pub enum ExceptionMessage {
    /// `get_Message` returned this text
    Text(String),
    /// `get_Message` threw in its turn
    Rethrown,
    /// `get_Message` returned null
    Null,
    /// The exception has no `get_Message`; this is its `ToString()`
    Described(String),
}

/// The text of an exception's message, as the error reports it.
pub open spec fn message_text(m: ExceptionMessage) -> Seq<char> {
    match m {
        ExceptionMessage::Text(t) => t@,
        ExceptionMessage::Rethrown => "Exception thrown while getting exception message"@,
        ExceptionMessage::Null => "Exception message was null"@,
        ExceptionMessage::Described(t) => t@,
    }
}

/// Whether an exception thrown by the method named `name` (`unknown` when
/// it has none) must not be asked for its message: the method is itself
/// `get_Message`, and asking would recurse.
pub fn is_message_getter(name: Option<&str>) -> (r: bool)
    ensures
        r == (name matches Some(n) && n@ == "get_Message"@),
{
    match name {
        Some(n) => str_eq(n, "get_Message"),
        None => false,
    }
}

/// The error a managed exception during a call of the method named `name`
/// (`unknown` when it has none) becomes.
pub fn invocation_error(name: Option<&str>, message: &ExceptionMessage) -> (r: String)
    ensures
        (name matches Some(n) && n@ == "get_Message"@) ==> r@
            == "Exception occurred while getting exception message"@,
        !(name matches Some(n) && n@ == "get_Message"@) ==> r@
            == "IL2CPP exception during invocation of '"@ + (match name {
            Some(n) => n@,
            None => "unknown"@,
        }) + "': "@ + message_text(*message),
{
    if is_message_getter(name) {
        return String::from_str("Exception occurred while getting exception message");
    }
    let mut r = String::from_str("IL2CPP exception during invocation of '");
    match name {
        Some(n) => r.append(n),
        None => r.append("unknown"),
    }
    r.append("': ");
    match message {
        ExceptionMessage::Text(t) => r.append(t.as_str()),
        ExceptionMessage::Rethrown => r.append("Exception thrown while getting exception message"),
        ExceptionMessage::Null => r.append("Exception message was null"),
        ExceptionMessage::Described(t) => r.append(t.as_str()),
    }
    r
}

/// Where a field's value lives.
#[derive(Debug)]
pub enum FieldLocation {
    /// In the static data of its class
    Static,
    /// At this address in its instance
    Instance(usize),
}

/// The error of accessing an instance field without an instance.
pub open spec fn no_field_instance_error(name: Seq<char>) -> Seq<char> {
    "Field '"@ + name
        + "' is an instance field but no instance was provided. Use Object::field or set the instance manually."@
}

/// The address of an instance field: its instance plus its offset.
pub open spec fn field_address(instance: usize, offset: i32) -> int {
    instance + (offset as usize)
}

impl Field {
    /// Where to read this field: the static data of its class (which must
    /// not be generic; `class_is_generic` is `None` when the field knows no
    /// class) or its instance at its offset.
    pub fn read_location(&self, class_is_generic: Option<bool>) -> (r: Result<FieldLocation, String>)
        requires
            !self.is_static && self.instance is Some ==> field_address(
                self.instance.unwrap(),
                self.offset,
            ) <= usize::MAX,
        ensures
            self.is_static && class_is_generic == Some(true) ==> (r matches Err(e) && e@
                == "Cannot read static field of generic class"@),
            self.is_static && class_is_generic != Some(true) ==> r matches Ok(FieldLocation::Static),
            !self.is_static && self.instance is None ==> (r matches Err(e) && e@
                == no_field_instance_error(self.name@)),
            !self.is_static && self.instance is Some ==> (r matches Ok(FieldLocation::Instance(a))
                && a == field_address(self.instance.unwrap(), self.offset)),
    {
        if self.is_static {
            if class_is_generic == Some(true) {
                return Err(String::from_str("Cannot read static field of generic class"));
            }
            return Ok(FieldLocation::Static);
        }
        self.write_location()
    }

    /// Where to write this field: the static data of its class, or its
    /// instance at its offset.
    pub fn write_location(&self) -> (r: Result<FieldLocation, String>)
        requires
            !self.is_static && self.instance is Some ==> field_address(
                self.instance.unwrap(),
                self.offset,
            ) <= usize::MAX,
        ensures
            self.is_static ==> r matches Ok(FieldLocation::Static),
            !self.is_static && self.instance is None ==> (r matches Err(e) && e@
                == no_field_instance_error(self.name@)),
            !self.is_static && self.instance is Some ==> (r matches Ok(FieldLocation::Instance(a))
                && a == field_address(self.instance.unwrap(), self.offset)),
    {
        if self.is_static {
            return Ok(FieldLocation::Static);
        }
        match self.instance {
            Some(instance) => Ok(FieldLocation::Instance(instance + self.offset as usize)),
            None => {
                let mut e = String::from_str("Field '");
                e.append(self.name.as_str());
                e.append(
                    "' is an instance field but no instance was provided. Use Object::field or set the instance manually.",
                );
                Err(e)
            },
        }
    }
}

/// Index of the first of `classes` without a `System.Type` object.
pub open spec fn first_without_type(classes: Seq<Class>) -> Option<int> {
    if exists|i: int| 0 <= i < classes.len() && (#[trigger] classes[i]).object == 0 {
        Some(choose|i: int| 0 <= i < classes.len() && (#[trigger] classes[i]).object == 0 && forall|j: int|
            0 <= j < i ==> (#[trigger] classes[j]).object != 0)
    } else {
        None
    }
}

/// The `System.Type` objects of type arguments, in order, or the error
/// naming the first one without one (and its position).
pub fn type_arguments(classes: &Vec<Class>) -> (r: Result<Vec<usize>, String>)
    ensures
        match first_without_type(classes@) {
            Some(i) => r matches Err(e) && e@ == "Class '"@ + classes@[i].name@ + "' (arg "@ + dec(
                i as nat,
            ) + ") has no Type object"@,
            None => r matches Ok(v) && v@.len() == classes@.len() && forall|i: int|
                0 <= i < classes@.len() ==> #[trigger] v@[i] == classes@[i].object,
        },
{
    let mut v: Vec<usize> = Vec::new();
    let mut i: usize = 0;
    while i < classes.len()
        invariant
            i <= classes@.len(),
            v@.len() == i,
            forall|j: int| 0 <= j < i ==> #[trigger] v@[j] == classes@[j].object,
            forall|j: int| 0 <= j < i ==> (#[trigger] classes@[j]).object != 0,
        decreases classes.len() - i,
    {
        if classes[i].object == 0 {
            proof {
                let w = choose|k: int| 0 <= k < classes@.len() && (#[trigger] classes@[k]).object == 0
                    && forall|j: int| 0 <= j < k ==> (#[trigger] classes@[j]).object != 0;
                assert(classes@[i as int].object == 0);
                if w < i {
                    assert(classes@[w].object != 0);
                }
                if w > i {
                    assert(classes@[i as int].object != 0);
                }
            }
            let mut e = String::from_str("Class '");
            e.append(classes[i].name.as_str());
            e.append("' (arg ");
            push_dec(&mut e, i as u128);
            e.append(") has no Type object");
            return Err(e);
        }
        v.push(classes[i].object);
        i = i + 1;
    }
    Ok(v)
}

impl Class {
    /// The checks before inflating this generic class with `classes` as
    /// type arguments: it must be generic and have a `System.Type` object,
    /// and there must be arguments, each with its own; then their objects.
    pub fn inflation_arguments(&self, classes: &Vec<Class>) -> (r: Result<Vec<usize>, String>)
        ensures
            !self.is_generic ==> (r matches Err(e) && e@ == "Class '"@ + self.name@
                + "' is not a generic type definition and cannot be inflated"@),
            self.is_generic && self.object == 0 ==> (r matches Err(e) && e@
                == "Could not get Type object for class '"@ + self.name@ + "'"@),
            self.is_generic && self.object != 0 && classes@.len() == 0 ==> (r matches Err(e) && e@
                == "No type arguments provided"@),
            self.is_generic && self.object != 0 && classes@.len() > 0 ==> match first_without_type(
                classes@,
            ) {
                Some(i) => r matches Err(e) && e@ == "Class '"@ + classes@[i].name@ + "' (arg "@
                    + dec(i as nat) + ") has no Type object"@,
                None => r matches Ok(v) && v@.len() == classes@.len() && forall|i: int|
                    0 <= i < classes@.len() ==> #[trigger] v@[i] == classes@[i].object,
            },
    {
        if !self.is_generic {
            let mut e = String::from_str("Class '");
            e.append(self.name.as_str());
            e.append("' is not a generic type definition and cannot be inflated");
            return Err(e);
        }
        if self.object == 0 {
            let mut e = String::from_str("Could not get Type object for class '");
            e.append(self.name.as_str());
            e.append("'");
            return Err(e);
        }
        if classes.len() == 0 {
            return Err(String::from_str("No type arguments provided"));
        }
        type_arguments(classes)
    }
}

impl Method {
    /// The checks before inflating this generic method with `classes` as
    /// type arguments: it must be generic, and there must be arguments,
    /// each with a `System.Type` object; then their objects.
    pub fn inflation_arguments(&self, classes: &Vec<Class>) -> (r: Result<Vec<usize>, String>)
        ensures
            !self.is_generic ==> (r matches Err(e) && e@ == "Method '"@ + self.name@
                + "' is not a generic method definition"@),
            self.is_generic && classes@.len() == 0 ==> (r matches Err(e) && e@
                == "No type arguments provided"@),
            self.is_generic && classes@.len() > 0 ==> match first_without_type(classes@) {
                Some(i) => r matches Err(e) && e@ == "Class '"@ + classes@[i].name@ + "' (arg "@
                    + dec(i as nat) + ") has no Type object"@,
                None => r matches Ok(v) && v@.len() == classes@.len() && forall|i: int|
                    0 <= i < classes@.len() ==> #[trigger] v@[i] == classes@[i].object,
            },
    {
        if !self.is_generic {
            let mut e = String::from_str("Method '");
            e.append(self.name.as_str());
            e.append("' is not a generic method definition");
            return Err(e);
        }
        if classes.len() == 0 {
            return Err(String::from_str("No type arguments provided"));
        }
        type_arguments(classes)
    }
}

/// The error of calling an accessor of an instance property without an
/// instance.
pub open spec fn no_property_instance_error(name: Seq<char>) -> Seq<char> {
    "Property '"@ + name
        + "' is not static but no instance was provided. Use Object::property or set the instance manually."@
}

/// The accessor a property call goes through, bound to the property's
/// instance when the property is not static; when the property lacks it,
/// the error is its name followed by `missing`.
pub open spec fn accessor_call(
    p: Property,
    accessor: Option<Method>,
    missing: Seq<char>,
    r: Result<Method, String>,
) -> bool {
    match accessor {
        None => r matches Err(e) && e@ == "Property '"@ + p.name@ + missing,
        Some(m) => if p.is_static {
            r matches Ok(c) && same_method(c, m)
        } else {
            match p.instance {
                None => r matches Err(e) && e@ == no_property_instance_error(p.name@),
                Some(i) => r matches Ok(c) && same_method(c, Method { instance: Some(i), ..m }),
            }
        },
    }
}

fn bind_accessor(p: &Property, m: &Method) -> (r: Result<Method, String>)
    ensures
        p.is_static ==> (r matches Ok(c) && same_method(c, *m)),
        !p.is_static && p.instance is None ==> (r matches Err(e) && e@
            == no_property_instance_error(p.name@)),
        !p.is_static && p.instance is Some ==> (r matches Ok(c) && same_method(
            c,
            Method { instance: p.instance, ..*m },
        )),
{
    let mut c = m.duplicate();
    if !p.is_static {
        match p.instance {
            Some(i) => {
                c.instance = Some(i);
            },
            None => {
                let mut e = String::from_str("Property '");
                e.append(p.name.as_str());
                e.append(
                    "' is not static but no instance was provided. Use Object::property or set the instance manually.",
                );
                return Err(e);
            },
        }
    }
    Ok(c)
}

impl Property {
    /// The getter call that reads this property: its getter, bound to the
    /// property's instance unless the property is static.
    pub fn getter_call(&self) -> (r: Result<Method, String>)
        ensures
            accessor_call(*self, self.getter, "' does not have a getter"@, r),
    {
        match &self.getter {
            Some(g) => bind_accessor(self, g),
            None => {
                let mut e = String::from_str("Property '");
                e.append(self.name.as_str());
                e.append("' does not have a getter");
                Err(e)
            },
        }
    }

    /// The setter call that writes this property: its setter, bound to the
    /// property's instance unless the property is static.
    pub fn setter_call(&self) -> (r: Result<Method, String>)
        ensures
            accessor_call(*self, self.setter, "' does not have a setter"@, r),
    {
        match &self.setter {
            Some(m) => bind_accessor(self, m),
            None => {
                let mut e = String::from_str("Property '");
                e.append(self.name.as_str());
                e.append("' does not have a setter");
                Err(e)
            },
        }
    }
}

} // verus!
