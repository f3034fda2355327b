use nes::{attempt, broken_channel, create_err, define_error, err, guard, impl_from_error};
use nes::{impl_from_error_into, ok, poisoned, Error, ErrorInfo, ErrorInfoTrait, ErrorType, Field};
use nes::{Outcome, Variant};

fn declare(name: &str, variants: &[(&str, &[&str], &str)]) -> ErrorType {
    let variants = variants
        .iter()
        .map(|(name, fields, template)| Variant {
            name: name.to_string(),
            fields: fields.iter().map(|f| f.to_string()).collect(),
            template: template.to_string(),
        })
        .collect();
    define_error(name, variants).unwrap()
}

fn shown(display: &str, debug: &str) -> Field<ErrorInfo> {
    Field::Value { display: display.to_string(), debug: debug.to_string() }
}

fn source_type() -> ErrorType {
    declare(
        "ReadFileError",
        &[
            ("IOError", &["io_error"], "IO Error: {}"),
            ("ReadFileError", &["io_error", "file"], "Can not read file \"{2}\" : {1}"),
        ],
    )
}

fn destination_type() -> ErrorType {
    declare(
        "CommonError",
        &[
            ("ReadFileError", &["read_file_error"], "read file error {}"),
            ("NoArguments", &[], "no arguments"),
            ("CanNotReadFile", &["cause"], "can not read: {}"),
        ],
    )
}

fn lock_type() -> ErrorType {
    declare(
        "Error",
        &[
            ("Poisoned", &[], "poisoned"),
            ("PoisonedWithArgs", &["who"], "Mutex has been poisoned by thread \"{}\""),
            ("BrokenChannel", &[], "broken channel"),
        ],
    )
}

fn read_file(file_name: &str) -> Outcome<Vec<String>> {
    let opened: Result<Vec<String>, Field<ErrorInfo>> =
        Err(shown("No such file or directory (os error 2)", "Os { code: 2 }"));
    let lines = attempt(
        opened,
        &source_type().variant("ReadFileError").unwrap(),
        ErrorInfo::new("example.rs", 54, 14),
        vec![shown(file_name, "\"no_file.rs\"")],
    )?;
    ok(lines)
}

fn process() -> Outcome {
    let edge = impl_from_error(&source_type(), &destination_type()).unwrap();
    let lines = edge.lift(read_file("no_file.rs"), ErrorInfo::new("example.rs", 19, 0))?;
    assert!(lines.is_empty());
    ok(())
}

fn source_failure() -> Error<ErrorInfo> {
    create_err(
        &source_type().variant("ReadFileError").unwrap(),
        ErrorInfo::new("example.rs", 54, 14),
        vec![
            shown("No such file or directory (os error 2)", "Os { code: 2 }"),
            shown("no_file.rs", "\"no_file.rs\""),
        ],
    )
}

#[test]
fn a_failure_of_the_source_type_arrives_nested_and_unchanged() {
    let failure = process().unwrap_err();
    assert_eq!(failure.constructor().error_type(), &destination_type());
    assert_eq!(failure.constructor().name(), "ReadFileError");
    assert_eq!(failure.get_error_info(), &ErrorInfo::new("example.rs", 19, 0));
    assert_eq!(failure.fields(), &vec![Field::Nested(Box::new(source_failure()))]);
    match &failure.fields()[0] {
        Field::Nested(inner) => {
            assert_eq!(**inner, source_failure());
            assert_eq!(inner.get_error_info(), &ErrorInfo::new("example.rs", 54, 14));
        }
        Field::Value { .. } => panic!("the source error is not nested"),
    }
    assert_eq!(
        failure.to_string(),
        "example.rs 19:0\nread file error example.rs 54:14\n\
         Can not read file \"no_file.rs\" : No such file or directory (os error 2)"
    );
}

#[test]
fn an_edge_goes_to_the_variant_named_like_the_source() {
    let edge = impl_from_error(&source_type(), &destination_type()).unwrap();
    assert_eq!(edge.source(), "ReadFileError");
    assert_eq!(edge.target().name(), "ReadFileError");
    assert_eq!(edge.target().error_type().name(), "CommonError");
    assert!(edge.admits(&source_failure()));
    let other = create_err(
        &destination_type().variant("NoArguments").unwrap(),
        ErrorInfo::new("a.rs", 1, 1),
        vec![],
    );
    assert!(!edge.admits(&other));
}

#[test]
fn an_edge_can_name_its_variant() {
    let target = destination_type().variant("CanNotReadFile").unwrap();
    let edge = impl_from_error_into(&source_type(), &target).unwrap();
    let wrapped = edge.convert(source_failure(), ErrorInfo::new("lib.rs", 7, 1));
    assert_eq!(wrapped.constructor(), &target);
    assert_eq!(wrapped.get_error_info(), &ErrorInfo::new("lib.rs", 7, 1));
    assert_eq!(wrapped.fields(), &vec![Field::Nested(Box::new(source_failure()))]);
    assert_eq!(
        wrapped.to_debug_string(),
        "lib.rs 7:1\nCommonError::CanNotReadFile cause:example.rs 54:14\n\
         ReadFileError::ReadFileError io_error:Os { code: 2 } file:\"no_file.rs\"  "
    );
}

#[test]
fn there_is_no_edge_without_a_fitting_variant() {
    assert!(impl_from_error(&lock_type(), &destination_type()).is_none());
    let taking_two = declare("Wide", &[("ReadFileError", &["a", "b"], "{} {}")]);
    assert!(impl_from_error(&source_type(), &taking_two).is_none());
    let no_fields = destination_type().variant("NoArguments").unwrap();
    assert!(impl_from_error_into(&source_type(), &no_fields).is_none());
    let shadowed =
        declare("Shadowed", &[("ReadFileError", &[], "first"), ("ReadFileError", &["e"], "{}")]);
    assert!(impl_from_error(&source_type(), &shadowed).is_none());
}

#[test]
fn a_success_passes_an_edge_as_it_is() {
    let edge = impl_from_error(&source_type(), &destination_type()).unwrap();
    let passed: Outcome<u32> = edge.lift(Ok(7), ErrorInfo::new("a.rs", 1, 1));
    assert_eq!(passed, Ok(7));
}

#[test]
fn attempt_hands_a_success_back_unchanged() {
    let ctor = source_type().variant("IOError").unwrap();
    let outcome: Result<String, Field<ErrorInfo>> = Ok("contents".to_string());
    assert_eq!(
        attempt(outcome, &ctor, ErrorInfo::new("a.rs", 1, 1), vec![]),
        Ok("contents".to_string())
    );
}

#[test]
fn attempt_wraps_the_cause_before_the_extra_fields() {
    let failure = read_file("no_file.rs").unwrap_err();
    assert_eq!(failure, source_failure());
    assert_eq!(
        failure.to_string(),
        "example.rs 54:14\nCan not read file \"no_file.rs\" : No such file or directory (os error 2)"
    );
}

#[test]
fn attempt_nests_a_declared_error_with_its_own_place() {
    let outcome: Result<(), Field<ErrorInfo>> = Err(Field::Nested(Box::new(source_failure())));
    let ctor = destination_type().variant("CanNotReadFile").unwrap();
    let failure = attempt(outcome, &ctor, ErrorInfo::new("outer.rs", 90, 5), vec![]).unwrap_err();
    assert_eq!(failure.get_error_info(), &ErrorInfo::new("outer.rs", 90, 5));
    match &failure.fields()[0] {
        Field::Nested(inner) => {
            assert_eq!(inner.get_error_info(), &ErrorInfo::new("example.rs", 54, 14))
        }
        Field::Value { .. } => panic!("the cause is not nested"),
    }
}

#[test]
fn err_is_a_failure_with_the_built_error() {
    let ctor = destination_type().variant("NoArguments").unwrap();
    let failed: Outcome<u8> = err(&ctor, ErrorInfo::new("a.rs", 39, 28), vec![]);
    assert_eq!(failed, Err(create_err(&ctor, ErrorInfo::new("a.rs", 39, 28), vec![])));
}

#[test]
fn ok_wraps_the_value_or_nothing() {
    let nothing: Outcome = ok(());
    assert_eq!(nothing, Ok(()));
    let lines: Outcome<Vec<String>> = ok(vec!["a".to_string()]);
    assert_eq!(lines, Ok(vec!["a".to_string()]));
}

#[test]
fn the_default_variants_are_found_by_their_names() {
    let ty = lock_type();
    assert_eq!(poisoned(&ty).unwrap().name(), "Poisoned");
    assert_eq!(broken_channel(&ty).unwrap().name(), "BrokenChannel");
    assert!(poisoned(&destination_type()).is_none());
    assert!(broken_channel(&destination_type()).is_none());
    let with_fields = declare("Odd", &[("Poisoned", &["who"], "{}")]);
    assert!(poisoned(&with_fields).is_none());
}

#[test]
fn guard_hands_back_what_the_lock_granted() {
    let lock = std::sync::Mutex::new(1u32);
    let ctor = poisoned(&lock_type()).unwrap();
    let granted = guard(lock.lock(), &ctor, ErrorInfo::new("lock.rs", 17, 15), vec![]).unwrap();
    assert_eq!(*granted, 1);
}

#[test]
fn guard_turns_a_poisoned_lock_into_the_chosen_error() {
    let ty = lock_type();
    let answer: std::sync::LockResult<u32> = Err(std::sync::PoisonError::new(1u32));
    let by_default = guard(answer, &poisoned(&ty).unwrap(), ErrorInfo::new("lock.rs", 37, 21), vec![]);
    assert_eq!(by_default.unwrap_err().to_string(), "lock.rs 37:21\npoisoned");
    let answer: std::sync::LockResult<u32> = Err(std::sync::PoisonError::new(1u32));
    let chosen = guard(
        answer,
        &ty.variant("PoisonedWithArgs").unwrap(),
        ErrorInfo::new("lock.rs", 40, 21),
        vec![shown("child", "\"child\"")],
    );
    assert_eq!(
        chosen.unwrap_err().to_string(),
        "lock.rs 40:21\nMutex has been poisoned by thread \"child\""
    );
}

#[test]
fn guard_serves_both_sides_of_a_read_write_lock() {
    let lock = std::sync::RwLock::new(5u32);
    let ctor = poisoned(&lock_type()).unwrap();
    {
        let mut writing = guard(lock.write(), &ctor, ErrorInfo::new("rw.rs", 1, 1), vec![]).unwrap();
        *writing += 1;
    }
    let reading = guard(lock.read(), &ctor, ErrorInfo::new("rw.rs", 2, 1), vec![]).unwrap();
    assert_eq!(*reading, 6);
}

#[test]
fn guard_turns_a_closed_channel_into_the_chosen_error() {
    let ctor = broken_channel(&lock_type()).unwrap();
    let (sender, receiver) = std::sync::mpsc::channel::<u32>();
    assert_eq!(guard(sender.send(1), &ctor, ErrorInfo::new("ch.rs", 1, 1), vec![]), Ok(()));
    assert_eq!(receiver.recv(), Ok(1));
    drop(receiver);
    let failed = guard(sender.send(2), &ctor, ErrorInfo::new("ch.rs", 9, 5), vec![]);
    assert_eq!(failed.unwrap_err().to_debug_string(), "ch.rs 9:5\nError::BrokenChannel ");
}
