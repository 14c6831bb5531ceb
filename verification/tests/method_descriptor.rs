use jvm::vm::java_type::JavaType;
use jvm::vm::method_descriptor::{
    parse_field_descriptor, DescriptorReader, MethodDescriptor, MethodDescriptorErr,
};

// Java: void add(int, int)
#[test]
fn parse_two_ints_void() {
    // given
    let signature = "(II)V";
    let expected_param = vec![JavaType::Int, JavaType::Int];
    let expected_ret = JavaType::Void;

    // when
    let md = MethodDescriptor::try_from(signature).unwrap();

    // then
    assert_eq!(md.params, expected_param);
    assert_eq!(md.ret, expected_ret);
}

// Java: int getCount()
#[test]
fn parse_no_params_int_return() {
    // given
    let signature = "()I";
    let expected_param: Vec<JavaType> = Vec::new();
    let expected_ret = JavaType::Int;

    // when
    let md = MethodDescriptor::try_from(signature).unwrap();

    // then
    assert_eq!(md.params, expected_param);
    assert_eq!(md.ret, expected_ret);
}

// Java: String echo(String)
#[test]
fn parse_string_param_string_return() {
    // given
    let signature = "(Ljava/lang/String;)Ljava/lang/String;";
    let expected_param = vec![JavaType::Instance("java/lang/String".into())];
    let expected_ret = JavaType::Instance("java/lang/String".into());

    // when
    let md = MethodDescriptor::try_from(signature).unwrap();

    // then
    assert_eq!(md.params, expected_param);
    assert_eq!(md.ret, expected_ret);
}

// Java: int[] process(int, String[])
#[test]
fn parse_array_param_and_return() {
    // given
    let signature = "(I[Ljava/lang/String;)[I";
    let expected_param = vec![
        JavaType::Int,
        JavaType::Array(Box::new(JavaType::Instance("java/lang/String".into()))),
    ];
    let expected_ret = JavaType::Array(Box::new(JavaType::Int));

    // when
    let md = MethodDescriptor::try_from(signature).unwrap();

    // then
    assert_eq!(md.params, expected_param);
    assert_eq!(md.ret, expected_ret);
}

// Java: Object[][] flatten(Object[][])
#[test]
fn parse_multi_dimensional_arrays() {
    // given
    let signature = "([[Ljava/lang/Object;)[[Ljava/lang/Object;";
    let obj = JavaType::Instance("java/lang/Object".into());
    let two_d_obj = JavaType::Array(Box::new(JavaType::Array(Box::new(obj.clone()))));
    let expected_param = vec![two_d_obj.clone()];
    let expected_ret = two_d_obj;

    // when
    let md = MethodDescriptor::try_from(signature).unwrap();

    // then
    assert_eq!(md.params, expected_param);
    assert_eq!(md.ret, expected_ret);
}

#[test]
fn descriptor_must_start_with_parenthesis() {
    assert_eq!(
        MethodDescriptor::try_from("II)V"),
        Err(MethodDescriptorErr::ShouldStartWithParentheses)
    );
    assert_eq!(
        MethodDescriptor::try_from(""),
        Err(MethodDescriptorErr::ShouldStartWithParentheses)
    );
}

#[test]
fn descriptor_missing_closing_parenthesis() {
    assert_eq!(
        MethodDescriptor::try_from("(II"),
        Err(MethodDescriptorErr::MissingClosingParenthesis)
    );
}

#[test]
fn descriptor_unexpected_end() {
    // no return type
    assert_eq!(
        MethodDescriptor::try_from("(I)"),
        Err(MethodDescriptorErr::UnexpectedEnd)
    );
    // unterminated class name
    assert_eq!(
        MethodDescriptor::try_from("(Ljava/lang/String)V"),
        Err(MethodDescriptorErr::UnexpectedEnd)
    );
}

#[test]
fn descriptor_invalid_type() {
    assert_eq!(
        MethodDescriptor::try_from("(Q)V"),
        Err(MethodDescriptorErr::InvalidType)
    );
    assert_eq!(
        MethodDescriptor::try_from("()X"),
        Err(MethodDescriptorErr::InvalidType)
    );
}

#[test]
fn descriptor_trailing_characters() {
    assert_eq!(
        MethodDescriptor::try_from("()VV"),
        Err(MethodDescriptorErr::TrailingCharacters)
    );
}

#[test]
fn descriptor_void_parameter_is_accepted() {
    let md = MethodDescriptor::try_from("(V)V").unwrap();
    assert_eq!(md.params, vec![JavaType::Void]);
}

#[test]
fn descriptor_all_base_types() {
    let md = MethodDescriptor::try_from("(BCDFIJSZ)V").unwrap();
    assert_eq!(
        md.params,
        vec![
            JavaType::Byte,
            JavaType::Char,
            JavaType::Double,
            JavaType::Float,
            JavaType::Int,
            JavaType::Long,
            JavaType::Short,
            JavaType::Boolean
        ]
    );
}

#[test]
fn java_type_from_char() {
    assert_eq!(JavaType::try_from('J'), Ok(JavaType::Long));
    assert_eq!(JavaType::try_from('Z'), Ok(JavaType::Boolean));
    assert_eq!(JavaType::try_from('L'), Err(()));
    assert_eq!(JavaType::try_from('['), Err(()));
}

#[test]
fn field_descriptor_parses_one_type() {
    assert_eq!(
        parse_field_descriptor("[Ljava/lang/String;"),
        Ok(JavaType::Array(Box::new(JavaType::Instance(
            "java/lang/String".into()
        ))))
    );
    assert_eq!(
        parse_field_descriptor("II"),
        Err(MethodDescriptorErr::TrailingCharacters)
    );
    assert_eq!(parse_field_descriptor(""), Err(MethodDescriptorErr::UnexpectedEnd));
}

#[test]
fn instance_name_with_unicode() {
    let md = MethodDescriptor::try_from("(Lpkg/Ünï;)V").unwrap();
    assert_eq!(md.params, vec![JavaType::Instance("pkg/Ünï".into())]);
}

#[test]
fn descriptor_clone_is_equal() {
    let md = MethodDescriptor::try_from("(I[Ljava/lang/String;J)[[Z").unwrap();
    let copy = md.clone();
    assert_eq!(copy, md);
    assert_eq!(copy.params.len(), 3);
}

#[test]
fn reader_position_after_type_errors() {
    let mut it = DescriptorReader::new("Ljava/lang");
    assert_eq!(MethodDescriptor::parse_type(&mut it), Err(MethodDescriptorErr::UnexpectedEnd));
    assert_eq!(it.peek(), None);

    let mut it = DescriptorReader::new("Qabc");
    assert_eq!(MethodDescriptor::parse_type(&mut it), Err(MethodDescriptorErr::InvalidType));
    assert_eq!(it.next(), Some('a'));

    let mut it = DescriptorReader::new("[[Qz");
    assert_eq!(MethodDescriptor::parse_type(&mut it), Err(MethodDescriptorErr::InvalidType));
    assert_eq!(it.peek(), Some('z'));

    let mut it = DescriptorReader::new("");
    assert_eq!(MethodDescriptor::parse_type(&mut it), Err(MethodDescriptorErr::UnexpectedEnd));
    assert_eq!(it.peek(), None);

    let mut it = DescriptorReader::new("[I;");
    assert_eq!(
        MethodDescriptor::parse_type(&mut it),
        Ok(JavaType::Array(Box::new(JavaType::Int)))
    );
    assert_eq!(it.peek(), Some(';'));
}
