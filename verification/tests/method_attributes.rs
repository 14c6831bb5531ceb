use jvm::jclass::method::{CodeAttribute, ExceptionTableEntry, MethodAttribute, MethodParameterEntry};
use jvm::vm::attribute::CodeAttribute as CodeAttributeInfo;
use jvm::vm::class_file::JvmError;
use jvm::vm::constant_pool::ConstantInfo;
use jvm::vm::cursor::Cursor;
use jvm::vm::runtime_constant_pool::RuntimeConstantPool;

fn pool() -> RuntimeConstantPool {
    RuntimeConstantPool::new(vec![
        ConstantInfo::Dummy,
        ConstantInfo::Utf8("Code".to_string()),
        ConstantInfo::Utf8("Exceptions".to_string()),
        ConstantInfo::Utf8("MethodParameters".to_string()),
        ConstantInfo::Utf8("LineNumberTable".to_string()),
        ConstantInfo::Utf8("arg".to_string()),
    ])
}

#[test]
fn parameter_entry_new() {
    let p = MethodParameterEntry::new(5, 0x10);
    assert_eq!(p, MethodParameterEntry { name_index: 5, access_flags: 0x10 });
}

#[test]
fn code_attribute_body() {
    let pool = pool();
    let mut data = vec![0u8, 1, 0, 1, 0, 0, 0, 1, 0xB1];
    data.extend([0, 1, 0, 0, 0, 1, 0, 1, 0, 0]);
    data.extend([0, 1, 0, 4, 0, 0, 0, 2, 0, 0]);
    let mut c = Cursor::new(&data);
    let code = CodeAttribute::read(&pool, &mut c).unwrap();
    assert_eq!(
        code,
        CodeAttribute {
            max_stack: 1,
            max_locals: 1,
            code: vec![0xB1],
            exception_table: vec![ExceptionTableEntry { start_pc: 0, end_pc: 1, handler_pc: 1, catch_type: 0 }],
            attributes: vec![CodeAttributeInfo::LineNumberTable(vec![])],
        }
    );
    assert_eq!(c.try_u8(), None);
}

#[test]
fn method_attribute_kinds() {
    let pool = pool();
    let data = [0u8, 2, 0, 0, 0, 6, 0, 2, 0, 7, 0, 8];
    let mut c = Cursor::new(&data);
    assert_eq!(MethodAttribute::read(&pool, &mut c), Ok(MethodAttribute::Exceptions(vec![7, 8])));

    let data = [0u8, 3, 0, 0, 0, 9, 2, 0, 5, 0, 0, 0, 0, 0x80, 0x00];
    let mut c = Cursor::new(&data);
    assert_eq!(
        MethodAttribute::read(&pool, &mut c),
        Ok(MethodAttribute::MethodParameters(vec![
            MethodParameterEntry { name_index: 5, access_flags: 0 },
            MethodParameterEntry { name_index: 0, access_flags: 0x8000 },
        ]))
    );

    let data = [0u8, 1, 0, 0, 0, 12, 0, 0, 0, 0, 0, 0, 0, 0, 0, 0, 0, 0];
    let mut c = Cursor::new(&data);
    assert_eq!(
        MethodAttribute::read(&pool, &mut c),
        Ok(MethodAttribute::Code(CodeAttribute {
            max_stack: 0,
            max_locals: 0,
            code: vec![],
            exception_table: vec![],
            attributes: vec![],
        }))
    );
}

#[test]
fn method_attribute_errors() {
    let pool = pool();
    let data = [0u8, 2, 0, 0, 0, 4, 0, 2, 0];
    let mut c = Cursor::new(&data);
    assert_eq!(MethodAttribute::read(&pool, &mut c), Err(JvmError::UnexpectedEof));
    let data = [0u8, 9, 0, 0, 0, 0];
    let mut c = Cursor::new(&data);
    assert_eq!(MethodAttribute::read(&pool, &mut c), Err(JvmError::TypeError));
}

#[test]
fn cursor_position_after_method_attribute_errors() {
    let pool = pool();
    let data = [0u8, 6, 0, 0, 0, 0, 0x42];
    let mut c = Cursor::new(&data);
    assert_eq!(MethodAttribute::read(&pool, &mut c), Err(JvmError::TypeError));
    assert_eq!(c.try_u8(), Some(0x42));

    let mut data = vec![0u8, 0, 0, 0, 0, 0, 0, 0, 0, 0, 0, 1];
    data.extend([0, 7, 0, 0, 0, 0, 0x43]);
    let mut c = Cursor::new(&data);
    assert_eq!(CodeAttribute::read(&pool, &mut c), Err(JvmError::TypeError));
    assert_eq!(c.try_u8(), Some(0x43));
}
