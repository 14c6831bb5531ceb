use vstd::prelude::*;

verus! {

/// A field or return type of a method descriptor
/// (JVMS 4.3.2).
#[derive(Debug, PartialEq, Eq)]
pub enum JavaType {
    Void,
    Byte,
    Char,
    Double,
    Float,
    Int,
    Long,
    /// An object or interface type, by its binary name.
    Instance(String),
    Short,
    Boolean,
    Array(Box<JavaType>),
}

/// The mathematical value of a `JavaType`: the class name as a sequence of characters.
pub enum SpecJavaType {
    Void,
    Byte,
    Char,
    Double,
    Float,
    Int,
    Long,
    Instance(Seq<char>),
    Short,
    Boolean,
    Array(Box<SpecJavaType>),
}

impl JavaType {
    pub open spec fn spec_view(&self) -> SpecJavaType
        decreases self,
    {
        match self {
            JavaType::Void => SpecJavaType::Void,
            JavaType::Byte => SpecJavaType::Byte,
            JavaType::Char => SpecJavaType::Char,
            JavaType::Double => SpecJavaType::Double,
            JavaType::Float => SpecJavaType::Float,
            JavaType::Int => SpecJavaType::Int,
            JavaType::Long => SpecJavaType::Long,
            JavaType::Instance(name) => SpecJavaType::Instance(name@),
            JavaType::Short => SpecJavaType::Short,
            JavaType::Boolean => SpecJavaType::Boolean,
            JavaType::Array(elem) => SpecJavaType::Array(Box::new(elem.spec_view())),
        }
    }
}

/// A copy of `t` with the same value.
fn copy_java_type(t: &JavaType) -> (res: JavaType)
    ensures
        res@ == t@,
    decreases t,
{
    match t {
        JavaType::Void => JavaType::Void,
        JavaType::Byte => JavaType::Byte,
        JavaType::Char => JavaType::Char,
        JavaType::Double => JavaType::Double,
        JavaType::Float => JavaType::Float,
        JavaType::Int => JavaType::Int,
        JavaType::Long => JavaType::Long,
        JavaType::Instance(name) => JavaType::Instance(name.clone()),
        JavaType::Short => JavaType::Short,
        JavaType::Boolean => JavaType::Boolean,
        JavaType::Array(elem) => JavaType::Array(Box::new(copy_java_type(elem))),
    }
}

impl Clone for JavaType {
    fn clone(&self) -> (res: Self)
        ensures
            res@ == self@,
    {
        copy_java_type(self)
    }
}

impl View for JavaType {
    type V = SpecJavaType;

    open spec fn view(&self) -> SpecJavaType {
        self.spec_view()
    }
}

/// The base type that a single descriptor character denotes, if any.
pub open spec fn spec_base_type(c: char) -> Option<SpecJavaType> {
    if c == 'V' {
        Some(SpecJavaType::Void)
    } else if c == 'B' {
        Some(SpecJavaType::Byte)
    } else if c == 'C' {
        Some(SpecJavaType::Char)
    } else if c == 'D' {
        Some(SpecJavaType::Double)
    } else if c == 'F' {
        Some(SpecJavaType::Float)
    } else if c == 'I' {
        Some(SpecJavaType::Int)
    } else if c == 'J' {
        Some(SpecJavaType::Long)
    } else if c == 'S' {
        Some(SpecJavaType::Short)
    } else if c == 'Z' {
        Some(SpecJavaType::Boolean)
    } else {
        None
    }
}

impl JavaType {
    /// Maps a base-type descriptor character (`V B C D F I J S Z`) to its type;
    /// any other character is refused with `Err(())`.
    pub fn try_from(value: char) -> (res: Result<JavaType, ()>)
        ensures
            match spec_base_type(value) {
                Some(t) => res matches Ok(r) && r@ == t,
                None => res is Err,
            },
    {
        match value {
            'V' => Ok(JavaType::Void),
            'B' => Ok(JavaType::Byte),
            'C' => Ok(JavaType::Char),
            'D' => Ok(JavaType::Double),
            'F' => Ok(JavaType::Float),
            'I' => Ok(JavaType::Int),
            'J' => Ok(JavaType::Long),
            'S' => Ok(JavaType::Short),
            'Z' => Ok(JavaType::Boolean),
            _ => Err(()),
        }
    }
}

} // verus!
