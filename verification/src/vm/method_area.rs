use vstd::prelude::*;

use std::collections::HashMap;

use crate::class_file::ClassFile;

verus! {

/// The method area (JVMS 2.5.4): the loaded classes, by name.
pub struct MethodArea {
    pub classes: HashMap<String, ClassFile>,
}

} // verus!
