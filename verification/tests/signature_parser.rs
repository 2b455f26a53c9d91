use reborn::signature_parser::{parse_jvm_descriptor, JVMSignature};

#[test]
fn test_transform_method_descriptor_into_signature() {
    let descriptor = "([Ljava/lang/String;[IZ[V)V".to_string();
    let signature = &parse_jvm_descriptor(&descriptor).unwrap();
    println!("{}", descriptor);
    assert_eq!(
        "void (java.lang.String[], int[], boolean, void[])",
        signature.to_string()
    )
}

#[test]
fn simple_test() {
    let signature = parse_jvm_descriptor("([Ljava/lang/String;[IZ[V)V").unwrap().to_string();
    assert_eq!(signature, "void (java.lang.String[], int[], boolean, void[])");
}

#[test]
fn method_parameters_are_their_field_descriptors_read_one_by_one() {
    let params = ["[[Ljava/util/List;", "J", "Lcom/example/Foo;"];
    let ret = "[B";
    let descriptor = format!("({}){}", params.concat(), ret);
    match parse_jvm_descriptor(&descriptor).unwrap() {
        JVMSignature::MethodSignature { params_spec, return_spec } => {
            assert_eq!(params_spec.len(), params.len());
            for (p, t) in params.iter().zip(params_spec.iter()) {
                match parse_jvm_descriptor(p).unwrap() {
                    JVMSignature::FieldSignature { spec } => assert_eq!(spec.to_string(), t.to_string()),
                    _ => panic!("expected a field signature"),
                }
            }
            assert_eq!(return_spec.to_string(), "byte[]");
        }
        _ => panic!("expected a method signature"),
    }
}
