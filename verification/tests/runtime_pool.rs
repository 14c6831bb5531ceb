use jvm::class_file::attribute::{ExceptionTableEntry, LineNumberEntry, LocalVariableEntry};
use jvm::vm::attribute::{ClassAttribute, CodeAttribute, MethodAttribute};
use jvm::vm::class_file::{JvmError, MethodDescriptorErr};
use jvm::vm::constant_pool::{
    ClassReference, ConstantInfo, FieldReference, MethodReference, NameAndTypeReference,
    StringReference,
};
use jvm::vm::cursor::Cursor;
use jvm::vm::java_type::JavaType;
use jvm::vm::method_descriptor::MethodDescriptorErr as ParseErr;
use jvm::vm::runtime_constant_pool::{descriptor_error, RuntimeConstantPool};

fn sample_entries() -> Vec<ConstantInfo> {
    vec![
        ConstantInfo::Dummy,                                                           // 0
        ConstantInfo::Utf8("Main".to_string()),                                        // 1
        ConstantInfo::Class(ClassReference { name_index: 1 }),                         // 2
        ConstantInfo::Utf8("<init>".to_string()),                                      // 3
        ConstantInfo::Utf8("()V".to_string()),                                         // 4
        ConstantInfo::NameAndType(NameAndTypeReference { name_index: 3, descriptor_index: 4 }), // 5
        ConstantInfo::MethodRef(MethodReference { class_index: 2, name_and_type_index: 5 }), // 6
        ConstantInfo::Utf8("count".to_string()),                                       // 7
        ConstantInfo::Utf8("I".to_string()),                                           // 8
        ConstantInfo::NameAndType(NameAndTypeReference { name_index: 7, descriptor_index: 8 }), // 9
        ConstantInfo::FieldRef(FieldReference { class_index: 2, name_and_type_index: 9 }), // 10
        ConstantInfo::String(StringReference { string_index: 1 }),                     // 11
        ConstantInfo::Integer(-7),                                                     // 12
        ConstantInfo::InterfaceRef(MethodReference { class_index: 2, name_and_type_index: 5 }), // 13
    ]
}

fn attribute_entries() -> Vec<ConstantInfo> {
    vec![
        ConstantInfo::Dummy,
        ConstantInfo::Utf8("SourceFile".to_string()),
        ConstantInfo::Utf8("Code".to_string()),
        ConstantInfo::Utf8("LineNumberTable".to_string()),
        ConstantInfo::Utf8("LocalVariableTable".to_string()),
        ConstantInfo::Utf8("Deprecated".to_string()),
        ConstantInfo::Class(ClassReference { name_index: 1 }),
    ]
}

#[test]
fn pool_lookups_of_each_kind() {
    let pool = RuntimeConstantPool::new(sample_entries());
    assert_eq!(pool.len(), 14);
    assert_eq!(pool.get_utf8(1).map(|s| s.as_str()), Ok("Main"));
    assert_eq!(pool.get_class(2), Ok(&ClassReference { name_index: 1 }));
    assert_eq!(pool.get_string(11), Ok(&StringReference { string_index: 1 }));
    assert_eq!(
        pool.get_method_nat(5),
        Ok(&NameAndTypeReference { name_index: 3, descriptor_index: 4 })
    );
    assert_eq!(
        pool.get_field_nat(9),
        Ok(&NameAndTypeReference { name_index: 7, descriptor_index: 8 })
    );
    assert_eq!(
        pool.get_methodref(6),
        Ok(&MethodReference { class_index: 2, name_and_type_index: 5 })
    );
    let md = pool.get_method_descriptor(4).unwrap();
    assert!(md.params.is_empty());
    assert_eq!(md.ret, JavaType::Void);
}

#[test]
fn pool_lookup_errors() {
    let pool = RuntimeConstantPool::new(sample_entries());
    assert_eq!(pool.get_utf8(2), Err(JvmError::TypeError));
    assert_eq!(pool.get_utf8(14), Err(JvmError::TypeError));
    assert_eq!(pool.get_class(1), Err(JvmError::TypeError));
    assert_eq!(pool.get_string(2), Err(JvmError::TypeError));
    assert_eq!(pool.get_methodref(10), Err(JvmError::TypeError));
    assert_eq!(pool.get_fieldref(6), Err(JvmError::TypeError));
    assert_eq!(pool.get_method_nat(6), Err(JvmError::TypeError));
    assert_eq!(
        pool.get_method_nat(9),
        Err(JvmError::MethodDescriptor(MethodDescriptorErr::ShouldStartWithParentheses))
    );
    assert_eq!(
        pool.get_field_nat(5),
        Err(JvmError::MethodDescriptor(MethodDescriptorErr::InvalidType))
    );
    assert_eq!(
        pool.get_method_descriptor(1),
        Err(JvmError::MethodDescriptor(MethodDescriptorErr::ShouldStartWithParentheses))
    );
}

#[test]
fn fieldref_resolves_its_name_and_type_as_a_method() {
    let pool = RuntimeConstantPool::new(sample_entries());
    assert_eq!(
        pool.get_fieldref(10),
        Err(JvmError::MethodDescriptor(MethodDescriptorErr::ShouldStartWithParentheses))
    );
}

#[test]
fn pool_reference_to_wrong_kind() {
    let mut entries = sample_entries();
    entries[2] = ConstantInfo::Class(ClassReference { name_index: 2 });
    let pool = RuntimeConstantPool::new(entries);
    assert_eq!(pool.get_class(2), Err(JvmError::TypeError));
    assert_eq!(pool.get_methodref(6), Err(JvmError::TypeError));
}

#[test]
fn descriptor_errors_convert() {
    assert_eq!(
        descriptor_error(ParseErr::TrailingCharacters),
        JvmError::MethodDescriptor(MethodDescriptorErr::TrailingCharacters)
    );
    assert_eq!(
        descriptor_error(ParseErr::UnexpectedEnd),
        JvmError::MethodDescriptor(MethodDescriptorErr::UnexpectedEnd)
    );
}

#[test]
fn pool_text_in_javap_style() {
    let pool = RuntimeConstantPool::new(sample_entries());
    let mut expected = String::new();
    let line = |p: usize, kind: &str, rest: &str| format!("#{} = {:<16}\t{}\n", p, kind, rest);
    expected += &line(1, "Utf8", "Main");
    expected += &line(2, "Class", "#1\t\t // Main");
    expected += &line(3, "Utf8", "<init>");
    expected += &line(4, "Utf8", "()V");
    expected += &line(5, "NameAndType", "#3.#4\t\t // \"<init>\":()V");
    expected += &line(6, "Methodref", "#2.#5\t\t // Main.\"<init>\":()V");
    expected += &line(7, "Utf8", "count");
    expected += &line(8, "Utf8", "I");
    expected += &line(9, "NameAndType", "#7.#8\t\t // \"count\":I");
    expected += &line(10, "Fieldref", "#2.#9\t\t // Main.\"count\":I");
    expected += &line(11, "String", "#1\t\t // Main");
    expected += &line(12, "/* TODO */", "Integer(-7)");
    expected += &line(
        13,
        "/* TODO */",
        "InterfaceRef(MethodReference { class_index: 2, name_and_type_index: 5 })",
    );
    assert_eq!(pool.to_string(), Some(expected));
}

#[test]
fn pool_text_of_small_pools() {
    assert_eq!(RuntimeConstantPool::new(vec![]).to_string(), Some(String::new()));
    assert_eq!(RuntimeConstantPool::new(vec![ConstantInfo::Dummy]).to_string(), Some(String::new()));
    let pool = RuntimeConstantPool::new(vec![ConstantInfo::Dummy, ConstantInfo::Long(5)]);
    assert_eq!(pool.to_string(), Some(format!("#1 = {:<16}\tLong(5)\n", "/* TODO */")));
}

#[test]
fn pool_text_fails_on_unresolved_reference() {
    let pool = RuntimeConstantPool::new(vec![
        ConstantInfo::Dummy,
        ConstantInfo::Class(ClassReference { name_index: 1 }),
    ]);
    assert_eq!(pool.to_string(), None);
    let mut entries = sample_entries();
    entries[4] = ConstantInfo::Utf8("V".to_string());
    assert_eq!(RuntimeConstantPool::new(entries).to_string(), None);
}

#[test]
fn vm_cursor_reads() {
    let data = [0u8, 1, 0, 0, 0, 2, 3, 4];
    let mut c = Cursor::new(&data);
    assert_eq!(c.u16(), Ok(1));
    assert_eq!(c.u32(), Ok(2));
    assert_eq!(c.try_u8(), Some(3));
    assert_eq!(c.bytes(1), Ok(vec![4]));
    assert_eq!(c.try_u8(), None);
    assert_eq!(c.u8(), Err(JvmError::UnexpectedEof));
    let mut buf = [0u8; 2];
    assert_eq!(c.read_exact(&mut buf), Err(JvmError::UnexpectedEof));
}

#[test]
fn class_attribute_reads() {
    let pool = RuntimeConstantPool::new(attribute_entries());
    let data = [0u8, 1, 0, 0, 0, 2, 0, 7, 0, 5, 0, 0, 0, 2, 9, 9];
    let mut c = Cursor::new(&data);
    let a = ClassAttribute::read(&pool, &mut c).unwrap();
    assert_eq!(a, ClassAttribute::SourceFile { sourcefile_index: 7 });
    assert_eq!(a.to_string(), "SourceFile(sourcefile_index: 7)");
    let b = ClassAttribute::read(&pool, &mut c).unwrap();
    assert_eq!(b, ClassAttribute::Unknown { name_index: 5, info: vec![9, 9] });
    assert_eq!(b.to_string(), "Unsupported(name_index: 5, data: 2 bytes)");
    let bad = [0u8, 6, 0, 0, 0, 0];
    let mut c = Cursor::new(&bad);
    assert_eq!(ClassAttribute::read(&pool, &mut c), Err(JvmError::TypeError));
}

#[test]
fn method_attribute_reads_code() {
    let pool = RuntimeConstantPool::new(attribute_entries());
    let mut data = vec![0u8, 2, 0, 0, 0, 0];
    data.extend([0, 3, 0, 2, 0, 0, 0, 3, 0x03, 0x3C, 0xB1]);
    data.extend([0, 1, 0, 0, 0, 3, 0, 4, 0, 6]);
    data.extend([0, 3]);
    data.extend([0, 3, 0, 0, 0, 6, 0, 1, 0, 0, 0, 12]);
    data.extend([0, 4, 0, 0, 0, 12, 0, 1, 0, 0, 0, 3, 0, 1, 0, 2, 0, 1]);
    data.extend([0, 5, 0, 0, 0, 1, 0xAA]);
    let mut c = Cursor::new(&data);
    let a = MethodAttribute::read(&pool, &mut c).unwrap();
    let expected = MethodAttribute::Code {
        max_stack: 3,
        max_locals: 2,
        code: vec![0x03, 0x3C, 0xB1],
        exception_table: vec![ExceptionTableEntry { start_pc: 0, end_pc: 3, handler_pc: 4, catch_type: 6 }],
        attributes: vec![
            CodeAttribute::LineNumberTable(vec![LineNumberEntry { start_pc: 0, line_number: 12 }]),
            CodeAttribute::LocalVariableTable(vec![LocalVariableEntry {
                start_pc: 0,
                length: 3,
                name_index: 1,
                descriptor_index: 2,
                index: 1,
            }]),
            CodeAttribute::Unknown { name_index: 5, info: vec![0xAA] },
        ],
    };
    assert_eq!(a, expected);
    assert_eq!(
        a.to_string(),
        "Code(max_stack: 3, max_locals: 2, code: \"03 3C B1\", exception_table: \
         [ExceptionTableEntry { start_pc: 0, end_pc: 3, handler_pc: 4, catch_type: 6 }] , \
         attributes: [LineNumberTable[LineNumberEntry { start_pc: 0, line_number: 12 }], \
         LocalVariableTable[LocalVariableEntry { start_pc: 0, length: 3, name_index: 1, \
         descriptor_index: 2, index: 1 }], Unsupported(name_index: 5, data: 1 bytes)])"
    );
    assert_eq!(c.try_u8(), None);
}

#[test]
fn method_attribute_reads_unknown_and_code_attribute_alone() {
    let pool = RuntimeConstantPool::new(attribute_entries());
    let data = [0u8, 5, 0, 0, 0, 0];
    let mut c = Cursor::new(&data);
    let a = MethodAttribute::read(&pool, &mut c).unwrap();
    assert_eq!(a, MethodAttribute::Unknown { name_index: 5, info: vec![] });
    assert_eq!(a.to_string(), "Unsupported(name_index: 5, data: 0 bytes)");
    let data = [0u8, 3, 0, 0, 0, 2, 0, 0];
    let mut c = Cursor::new(&data);
    let ca = CodeAttribute::read(&pool, &mut c).unwrap();
    assert_eq!(ca, CodeAttribute::LineNumberTable(vec![]));
    assert_eq!(ca.to_string(), "LineNumberTable[]");
    let truncated = [0u8, 2, 0, 0, 0, 0, 0, 1];
    let mut c = Cursor::new(&truncated);
    assert_eq!(MethodAttribute::read(&pool, &mut c), Err(JvmError::UnexpectedEof));
}

#[test]
fn cursor_position_after_attribute_errors() {
    let pool = RuntimeConstantPool::new(attribute_entries());
    let data = [0u8, 6, 0, 0, 0, 2, 0x12, 0x34];
    let mut c = Cursor::new(&data);
    assert_eq!(ClassAttribute::read(&pool, &mut c), Err(JvmError::TypeError));
    assert_eq!(c.u16(), Ok(0x1234));

    let mut data = vec![0u8, 2, 0, 0, 0, 0];
    data.extend([0, 1, 0, 1, 0, 0, 0, 0, 0, 0, 0, 2]);
    data.extend([0, 5, 0, 0, 0, 1, 0xAA]);
    data.extend([0, 9, 0, 0, 0, 0, 0x77]);
    let mut c = Cursor::new(&data);
    assert_eq!(MethodAttribute::read(&pool, &mut c), Err(JvmError::TypeError));
    assert_eq!(c.u8(), Ok(0x77));

    let data = [0u8, 3, 0, 0, 0, 0, 0, 2, 0, 1];
    let mut c = Cursor::new(&data);
    assert_eq!(CodeAttribute::read(&pool, &mut c), Err(JvmError::UnexpectedEof));
    assert_eq!(c.try_u8(), None);
}
