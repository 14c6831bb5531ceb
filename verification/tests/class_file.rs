use jvm::class_file::attribute::{
    attribute_kind, bytes_equal, AttributeInfo, AttributeKind, ExceptionTableEntry,
    LineNumberEntry, LocalVariableEntry,
};
use jvm::class_file::bytes::{be_u16, be_u32};
use jvm::class_file::constant_pool::{ConstantInfo, ConstantTag};
use jvm::class_file::cursor::Cursor;
use jvm::class_file::member::{FieldInfo, MethodInfo};
use jvm::class_file::{ClassFile, ParseError, Stop};

fn utf8_entry(text: &str) -> Vec<u8> {
    let mut v = vec![1u8, 0, text.len() as u8];
    v.extend_from_slice(text.as_bytes());
    v
}

fn class_header(pool_count: u16) -> Vec<u8> {
    let mut v = vec![0xCA, 0xFE, 0xBA, 0xBE, 0, 0, 0, 65];
    v.extend_from_slice(&pool_count.to_be_bytes());
    v
}

/// A class `Main` with one interface, one field and one method with a `Code`
/// attribute, and a `SourceFile` attribute.
fn sample_class() -> Vec<u8> {
    let mut v = class_header(7);
    v.extend(utf8_entry("Main")); // #1
    v.extend([7, 0, 1]); // #2 Class #1
    v.extend(utf8_entry("Code")); // #3
    v.extend(utf8_entry("SourceFile")); // #4
    v.extend(utf8_entry("x")); // #5
    v.extend(utf8_entry("I")); // #6
    v.extend([0x00, 0x21, 0, 2, 0, 2]); // access, this, super
    v.extend([0, 1, 0, 2]); // interfaces: [2]
    // one field: access 2, name #5, descriptor #6, no attributes
    v.extend([0, 1, 0, 2, 0, 5, 0, 6, 0, 0]);
    // one method with a Code attribute
    v.extend([0, 1, 0, 9, 0, 5, 0, 6, 0, 1]);
    v.extend([0, 3, 0, 0, 0, 13]); // Code, length 13
    v.extend([0, 1, 0, 2, 0, 0, 0, 1, 0xB1, 0, 0, 0, 0]);
    // class attributes: SourceFile #5
    v.extend([0, 1, 0, 4, 0, 0, 0, 2, 0, 5]);
    v
}

#[test]
fn cursor_reads_big_endian_values() {
    let data = [0x12u8, 0x34, 0x56, 0x78, 0x9A, 0xBC, 0xDE];
    let mut c = Cursor::new(&data);
    assert_eq!(c.u32(), Ok(0x12345678));
    assert_eq!(c.u16(), Ok(0x9ABC));
    assert_eq!(c.u8(), Ok(0xDE));
    assert_eq!(c.u8(), Err(ParseError::UnexpectedEof));
}

#[test]
fn cursor_short_read_is_eof() {
    let data = [1u8, 2, 3];
    let mut c = Cursor::new(&data);
    assert_eq!(c.u32(), Err(ParseError::UnexpectedEof));
    let mut c = Cursor::new(&data);
    assert_eq!(c.bytes(2), Ok(vec![1, 2]));
    assert_eq!(c.bytes(2), Err(ParseError::UnexpectedEof));
}

#[test]
fn cursor_read_exact_fills_buffer() {
    let data = [9u8, 8, 7, 6];
    let mut c = Cursor::new(&data);
    let mut buf = [0u8; 3];
    assert_eq!(c.read_exact(&mut buf), Ok(()));
    assert_eq!(buf, [9, 8, 7]);
    let mut more = [0u8; 2];
    assert_eq!(c.read_exact(&mut more), Err(ParseError::UnexpectedEof));
    assert_eq!(more[0], 6);
}

#[test]
fn big_endian_helpers() {
    assert_eq!(be_u16(0x01, 0x02), 0x0102);
    assert_eq!(be_u32(0xCA, 0xFE, 0xBA, 0xBE), 0xCAFEBABE);
}

#[test]
fn constant_tags_by_number() {
    assert_eq!(ConstantTag::try_from_primitive(1), Ok(ConstantTag::Utf8));
    assert_eq!(ConstantTag::try_from_primitive(7), Ok(ConstantTag::Class));
    assert_eq!(ConstantTag::try_from_primitive(12), Ok(ConstantTag::NameAndType));
    assert_eq!(ConstantTag::try_from_primitive(20), Ok(ConstantTag::Package));
    assert_eq!(ConstantTag::try_from_primitive(2), Err(2));
    assert_eq!(ConstantTag::try_from_primitive(13), Err(13));
    assert_eq!(ConstantTag::try_from_primitive(0), Err(0));
}

#[test]
fn constant_read_kinds() {
    let data = utf8_entry("Hi");
    let mut c = Cursor::new(&data);
    assert_eq!(ConstantInfo::read(&mut c), Ok(ConstantInfo::Utf8(b"Hi".to_vec())));

    let data = [10u8, 0, 3, 0, 4];
    let mut c = Cursor::new(&data);
    assert_eq!(
        ConstantInfo::read(&mut c),
        Ok(ConstantInfo::MethodRef { class_index: 3, name_and_type_index: 4 })
    );

    let data = [9u8, 0, 1, 0, 2, 11, 0, 5, 0, 6, 12, 0, 7, 0, 8, 8, 0, 9];
    let mut c = Cursor::new(&data);
    assert_eq!(
        ConstantInfo::read(&mut c),
        Ok(ConstantInfo::FieldRef { class_index: 1, name_and_type_index: 2 })
    );
    assert_eq!(
        ConstantInfo::read(&mut c),
        Ok(ConstantInfo::InterfaceRef { class_index: 5, name_and_type_index: 6 })
    );
    assert_eq!(
        ConstantInfo::read(&mut c),
        Ok(ConstantInfo::NameAndType { name_index: 7, descriptor_index: 8 })
    );
    assert_eq!(ConstantInfo::read(&mut c), Ok(ConstantInfo::String(9)));
}

#[test]
fn constant_read_errors() {
    let data = [2u8, 0, 0];
    let mut c = Cursor::new(&data);
    assert_eq!(ConstantInfo::read(&mut c), Err(ParseError::UnknownTag(2)));

    let data = [7u8, 0];
    let mut c = Cursor::new(&data);
    assert_eq!(ConstantInfo::read(&mut c), Err(ParseError::UnexpectedEof));

    let data: [u8; 0] = [];
    let mut c = Cursor::new(&data);
    assert_eq!(ConstantInfo::read(&mut c), Err(ParseError::UnexpectedEof));
}

#[test]
fn constant_text() {
    assert_eq!(ConstantInfo::Utf8(b"Main".to_vec()).to_string(), "Utf8(\"Main\")");
    assert_eq!(
        ConstantInfo::Utf8(vec![0xFF, 0x41]).to_string(),
        "Utf8(<invalid utf8: [255, 65]>)"
    );
    assert_eq!(ConstantInfo::Integer(-42).to_string(), "Integer(-42)");
    assert_eq!(ConstantInfo::Long(9000000000).to_string(), "Long(9000000000)");
    assert_eq!(ConstantInfo::Class(3).to_string(), "Class(index: 3)");
    assert_eq!(ConstantInfo::String(12).to_string(), "String(index: 12)");
    assert_eq!(
        ConstantInfo::MethodRef { class_index: 1, name_and_type_index: 2 }.to_string(),
        "MethodRef(class: 1, name_and_type: 2)"
    );
    assert_eq!(
        ConstantInfo::FieldRef { class_index: 3, name_and_type_index: 4 }.to_string(),
        "FieldRef(class: 3, name_and_type: 4)"
    );
    assert_eq!(
        ConstantInfo::InterfaceRef { class_index: 5, name_and_type_index: 6 }.to_string(),
        "InterfaceRef(class: 5, name_and_type: 6)"
    );
    assert_eq!(
        ConstantInfo::NameAndType { name_index: 7, descriptor_index: 8 }.to_string(),
        "NameAndType(name: 7, descriptor: 8)"
    );
}

#[test]
fn attribute_names_are_recognised() {
    assert!(bytes_equal(b"Code", b"Code"));
    assert!(!bytes_equal(b"Code", b"Cod"));
    assert_eq!(attribute_kind(b"Code"), AttributeKind::Code);
    assert_eq!(attribute_kind(b"LineNumberTable"), AttributeKind::LineNumberTable);
    assert_eq!(attribute_kind(b"LocalVariableTable"), AttributeKind::LocalVariableTable);
    assert_eq!(attribute_kind(b"SourceFile"), AttributeKind::SourceFile);
    assert_eq!(attribute_kind(b"Signature"), AttributeKind::Other);
}

fn attribute_pool() -> Vec<ConstantInfo> {
    vec![
        ConstantInfo::Utf8(b"Code".to_vec()),
        ConstantInfo::Utf8(b"LineNumberTable".to_vec()),
        ConstantInfo::Utf8(b"LocalVariableTable".to_vec()),
        ConstantInfo::Utf8(b"SourceFile".to_vec()),
        ConstantInfo::Utf8(b"Deprecated".to_vec()),
        ConstantInfo::Class(1),
    ]
}

#[test]
fn attribute_read_source_file_and_unsupported() {
    let pool = attribute_pool();
    let data = [0u8, 4, 0, 0, 0, 2, 0, 9, 0, 5, 0, 0, 0, 3, 1, 2, 3];
    let mut c = Cursor::new(&data);
    assert_eq!(
        AttributeInfo::read(&pool, &mut c),
        Ok(AttributeInfo::SourceFile { sourcefile_index: 9 })
    );
    assert_eq!(
        AttributeInfo::read(&pool, &mut c),
        Ok(AttributeInfo::Unsupported { name_index: 5, data: vec![1, 2, 3] })
    );
    assert_eq!(c.u8(), Err(ParseError::UnexpectedEof));
}

#[test]
fn attribute_read_code_with_nested_tables() {
    let pool = attribute_pool();
    let mut data = vec![0u8, 1, 0, 0, 0, 0];
    data.extend([0, 2, 0, 1, 0, 0, 0, 2, 0x2A, 0xB1]);
    data.extend([0, 1, 0, 0, 0, 2, 0, 5, 0, 0]); // exception table
    data.extend([0, 2]); // two sub-attributes
    data.extend([0, 2, 0, 0, 0, 6, 0, 1, 0, 0, 0, 7]);
    data.extend([0, 3, 0, 0, 0, 12, 0, 1, 0, 0, 0, 2, 0, 8, 0, 9, 0, 0]);
    let mut c = Cursor::new(&data);
    let attr = AttributeInfo::read(&pool, &mut c).unwrap();
    assert_eq!(
        attr,
        AttributeInfo::Code {
            max_stack: 2,
            max_locals: 1,
            code: vec![0x2A, 0xB1],
            exception_table: vec![ExceptionTableEntry {
                start_pc: 0,
                end_pc: 2,
                handler_pc: 5,
                catch_type: 0
            }],
            attributes: vec![
                AttributeInfo::LineNumberTable(vec![LineNumberEntry { start_pc: 0, line_number: 7 }]),
                AttributeInfo::LocalVariableTable(vec![LocalVariableEntry {
                    start_pc: 0,
                    length: 2,
                    name_index: 8,
                    descriptor_index: 9,
                    index: 0
                }]),
            ],
        }
    );
    assert_eq!(
        attr.to_string(),
        "Code(max_stack: 2, max_locals: 1, code: \"2A B1\", exception_table: \
         [ExceptionTableEntry { start_pc: 0, end_pc: 2, handler_pc: 5, catch_type: 0 }] , \
         attributes: [LineNumberTable[LineNumberEntry { start_pc: 0, line_number: 7 }], \
         LocalVariableTable[LocalVariableEntry { start_pc: 0, length: 2, name_index: 8, \
         descriptor_index: 9, index: 0 }]])"
    );
}

#[test]
fn attribute_name_must_be_utf8() {
    let pool = attribute_pool();
    let data = [0u8, 6, 0, 0, 0, 0];
    let mut c = Cursor::new(&data);
    assert_eq!(AttributeInfo::read(&pool, &mut c), Err(ParseError::AttributeShouldBeUtf8));
    let data = [0u8, 40, 0, 0, 0, 0];
    let mut c = Cursor::new(&data);
    assert_eq!(AttributeInfo::read(&pool, &mut c), Err(ParseError::AttributeShouldBeUtf8));
}

#[test]
fn attribute_text_of_simple_kinds() {
    assert_eq!(
        AttributeInfo::SourceFile { sourcefile_index: 11 }.to_string(),
        "SourceFile(sourcefile_index: 11)"
    );
    assert_eq!(
        AttributeInfo::Unsupported { name_index: 4, data: vec![0; 5] }.to_string(),
        "Unsupported(name_index: 4, data: 5 bytes)"
    );
    assert_eq!(
        AttributeInfo::LineNumberTable(vec![]).to_string(),
        "LineNumberTable[]"
    );
    let code = AttributeInfo::Code {
        max_stack: 1,
        max_locals: 0,
        code: vec![],
        exception_table: vec![],
        attributes: vec![],
    };
    assert_eq!(code.to_string(), "Code(max_stack: 1, max_locals: 0, code: \"\")");
}

#[test]
fn members_read_with_attributes() {
    let pool = attribute_pool();
    let data = [0u8, 9, 0, 7, 0, 8, 0, 1, 0, 4, 0, 0, 0, 2, 0, 3];
    let mut c = Cursor::new(&data);
    assert_eq!(
        FieldInfo::read(&pool, &mut c),
        Ok(FieldInfo {
            access_flags: 9,
            name_index: 7,
            descriptor_index: 8,
            attributes: vec![AttributeInfo::SourceFile { sourcefile_index: 3 }],
        })
    );
    let data = [0u8, 1, 0, 2, 0, 3, 0, 0];
    let mut c = Cursor::new(&data);
    assert_eq!(
        MethodInfo::read(&pool, &mut c),
        Ok(MethodInfo { access_flags: 1, name_index: 2, descriptor_index: 3, attributes: vec![] })
    );
}

#[test]
fn class_file_magic() {
    assert_eq!(ClassFile::validate_magic(0xCAFEBABE), Ok(()));
    assert_eq!(ClassFile::validate_magic(0xCAFEBABF), Err(ParseError::WrongMagic));
}

#[test]
fn class_file_parses_sample() {
    let cf = ClassFile::try_from(sample_class()).unwrap();
    assert_eq!(cf.minor_version, 0);
    assert_eq!(cf.major_version, 65);
    assert_eq!(cf.constant_pool.len(), 6);
    assert_eq!(cf.constant_pool[0], ConstantInfo::Utf8(b"Main".to_vec()));
    assert_eq!(cf.constant_pool[1], ConstantInfo::Class(1));
    assert_eq!(cf.access_flags, 0x21);
    assert_eq!(cf.this_class, 2);
    assert_eq!(cf.super_class, 2);
    assert_eq!(cf.interfaces, vec![2]);
    assert_eq!(
        cf.fields,
        vec![FieldInfo { access_flags: 2, name_index: 5, descriptor_index: 6, attributes: vec![] }]
    );
    assert_eq!(cf.methods.len(), 1);
    assert_eq!(cf.methods[0].access_flags, 9);
    assert_eq!(
        cf.methods[0].attributes,
        vec![AttributeInfo::Code {
            max_stack: 1,
            max_locals: 2,
            code: vec![0xB1],
            exception_table: vec![],
            attributes: vec![],
        }]
    );
    assert_eq!(cf.attributes, vec![AttributeInfo::SourceFile { sourcefile_index: 5 }]);
}

#[test]
fn class_file_refuses_trailing_bytes() {
    let mut bytes = sample_class();
    bytes.push(0);
    assert_eq!(ClassFile::try_from(bytes).err(), Some(ParseError::TrailingBytes));
}

#[test]
fn class_file_refuses_wrong_magic() {
    let mut bytes = sample_class();
    bytes[3] = 0xBF;
    assert_eq!(ClassFile::try_from(bytes).err(), Some(ParseError::WrongMagic));
}

#[test]
fn class_file_refuses_truncated_input() {
    let bytes = sample_class();
    for cut in [0usize, 3, 9, 20, bytes.len() - 1] {
        let short = bytes[..cut].to_vec();
        assert_eq!(ClassFile::try_from(short).err(), Some(ParseError::UnexpectedEof));
    }
}

#[test]
fn class_file_refuses_unknown_tag() {
    let mut bytes = class_header(2);
    bytes.extend([13u8, 0, 0]);
    assert_eq!(ClassFile::try_from(bytes).err(), Some(ParseError::UnknownTag(13)));
}

#[test]
fn class_file_with_empty_pool() {
    let mut bytes = class_header(0);
    bytes.extend([0, 0, 0, 0, 0, 0, 0, 0, 0, 0, 0, 0, 0, 0]);
    let cf = ClassFile::try_from(bytes).unwrap();
    assert!(cf.constant_pool.is_empty());
    assert!(cf.interfaces.is_empty() && cf.fields.is_empty());
    assert!(cf.methods.is_empty() && cf.attributes.is_empty());
}

#[test]
fn debug_text_matches_derived_debug() {
    let attrs = vec![
        AttributeInfo::SourceFile { sourcefile_index: 5 },
        AttributeInfo::Unsupported { name_index: 4, data: vec![1, 2] },
        AttributeInfo::LineNumberTable(vec![LineNumberEntry { start_pc: 1, line_number: 2 }]),
        AttributeInfo::LocalVariableTable(vec![]),
        AttributeInfo::Code {
            max_stack: 1,
            max_locals: 2,
            code: vec![0xB1, 0],
            exception_table: vec![ExceptionTableEntry { start_pc: 0, end_pc: 1, handler_pc: 2, catch_type: 3 }],
            attributes: vec![AttributeInfo::SourceFile { sourcefile_index: 1 }],
        },
    ];
    for a in &attrs {
        assert_eq!(a.to_debug_string(), format!("{:?}", a));
    }
    let field = FieldInfo { access_flags: 2, name_index: 5, descriptor_index: 6, attributes: attrs };
    assert_eq!(field.to_string(), format!("{:?}", field));
    let method = MethodInfo { access_flags: 9, name_index: 1, descriptor_index: 2, attributes: vec![] };
    assert_eq!(method.to_string(), "MethodInfo { access_flags: 9, name_index: 1, descriptor_index: 2, attributes: [] }");
}

#[test]
fn class_file_text() {
    let cf = ClassFile::try_from(sample_class()).unwrap();
    let mut expected = String::new();
    expected += "ClassFile {\n";
    expected += "  version: 65.0\n";
    expected += "  access_flags: 33\n";
    expected += "  this_class: 2\n";
    expected += "  super_class: 2\n";
    expected += "  constant_pool (6):\n";
    for (i, item) in cf.constant_pool.iter().enumerate() {
        expected += &format!("    {}: {}\n", i + 1, item.to_string());
    }
    expected += "  interfaces (1): [2]\n";
    expected += "  fields (1):\n";
    expected += &format!("    {:?}\n", cf.fields[0]);
    expected += "  methods (1):\n";
    expected += &format!("    {:?}\n", cf.methods[0]);
    expected += "  attributes (1):\n";
    expected += "    SourceFile { sourcefile_index: 5 }\n";
    expected += "}";
    assert_eq!(cf.to_string(), expected);
    assert!(cf.to_string().contains("    1: Utf8(\"Main\")\n    2: Class(index: 1)\n"));
}

#[test]
fn class_file_parse_tells_unsupported_inputs_apart() {
    let mut float_pool = class_header(2);
    float_pool.extend([4u8, 0x3F, 0x80, 0, 0]);
    float_pool.extend([0u8; 14]);
    assert_eq!(ClassFile::parse(float_pool).err(), Some(Stop::Unsupported));

    let mut nameless = class_header(1);
    nameless.extend([0u8, 0, 0, 0, 0, 0, 0, 0, 0, 0, 0, 0, 0, 1]);
    nameless.extend([0u8, 0, 0, 0, 0, 0]);
    assert_eq!(
        ClassFile::parse(nameless.clone()).err(),
        Some(Stop::Error(ParseError::AttributeShouldBeUtf8))
    );
    assert_eq!(ClassFile::try_from(nameless).err(), Some(ParseError::AttributeShouldBeUtf8));

    let mut wrong = sample_class();
    wrong[0] = 0;
    assert_eq!(ClassFile::parse(wrong).err(), Some(Stop::Error(ParseError::WrongMagic)));
    assert_eq!(
        ClassFile::parse(sample_class()).ok(),
        ClassFile::try_from(sample_class()).ok()
    );
}

#[test]
fn method_area_holds_classes_by_name() {
    let mut area = jvm::vm::method_area::MethodArea { classes: std::collections::HashMap::new() };
    let cf = ClassFile::try_from(sample_class()).unwrap();
    area.classes.insert("Main".to_string(), cf);
    assert_eq!(area.classes["Main"].this_class, 2);
}

#[test]
fn attribute_name_index_zero_is_refused() {
    let pool: Vec<ConstantInfo> = vec![];
    let data = [0u8, 0, 0, 0, 0, 0];
    let mut c = Cursor::new(&data);
    assert_eq!(AttributeInfo::read(&pool, &mut c), Err(ParseError::AttributeShouldBeUtf8));
    assert_eq!(c.u8(), Err(ParseError::UnexpectedEof));
}

#[test]
fn cursor_position_after_errors() {
    let data = [2u8, 9, 8];
    let mut c = Cursor::new(&data);
    assert_eq!(ConstantInfo::read(&mut c), Err(ParseError::UnknownTag(2)));
    assert_eq!(c.u8(), Ok(9));

    let pool = attribute_pool();
    let data = [0u8, 6, 0, 0, 0, 9, 0xAB, 0xCD];
    let mut c = Cursor::new(&data);
    assert_eq!(AttributeInfo::read(&pool, &mut c), Err(ParseError::AttributeShouldBeUtf8));
    assert_eq!(c.u16(), Ok(0xABCD));

    // a Code attribute whose second nested attribute has a bad name
    let mut data = vec![0u8, 1, 0, 0, 0, 0];
    data.extend([0, 1, 0, 1, 0, 0, 0, 1, 0xB1, 0, 0, 0, 2]);
    data.extend([0, 4, 0, 0, 0, 2, 0, 7]);
    data.extend([0, 6, 0, 0, 0, 2, 0x11, 0x22]);
    let mut c = Cursor::new(&data);
    assert_eq!(AttributeInfo::read(&pool, &mut c), Err(ParseError::AttributeShouldBeUtf8));
    assert_eq!(c.u16(), Ok(0x1122));

    // a field whose attribute has a bad name
    let data = [0u8, 1, 0, 2, 0, 3, 0, 1, 0, 40, 0, 0, 0, 0, 0x55];
    let mut c = Cursor::new(&data);
    assert_eq!(FieldInfo::read(&pool, &mut c), Err(ParseError::AttributeShouldBeUtf8));
    assert_eq!(c.u8(), Ok(0x55));

    // running out of input leaves nothing
    let data = [0u8, 2, 0, 0, 0, 6, 0, 3, 0, 1];
    let mut c = Cursor::new(&data);
    assert_eq!(AttributeInfo::read(&pool, &mut c), Err(ParseError::UnexpectedEof));
    assert_eq!(c.u8(), Err(ParseError::UnexpectedEof));
}
