use mycad::dynamic_input::{
    fields_for, insert_char, invalid_message, DynamicInput, DynamicKeyResult, DynamicLayout, Field, FieldKind,
};

fn length_angle() -> DynamicInput {
    let mut input = DynamicInput::default();
    input.set_layout(DynamicLayout::LengthAngle);
    input
}

#[test]
fn factor_layout_owns_keyboard_so_delete_hotkey_stays_gated() {
    let mut input = DynamicInput::default();
    input.set_layout(DynamicLayout::Factor);
    assert!(input.is_active());
    assert_eq!(input.layout(), DynamicLayout::Factor);
}

#[test]
fn hidden_layout_does_not_take_keys() {
    let input = DynamicInput::default();
    assert!(!input.is_active());
    assert_eq!(input.fields().len(), 0);
}

#[test]
fn typing_fills_the_active_field() {
    let mut input = length_angle();
    assert_eq!(input.insert_text("12,5"), Ok(true));
    assert_eq!(input.fields()[0].buffer, "12.5");
    assert!(input.fields()[0].typed);
    assert!(input.has_typed_or_locked());
    // a second decimal point is refused, a letter hands the text back
    assert_eq!(input.insert_text("."), Ok(false));
    assert_eq!(input.insert_text("x"), Ok(false));
    input.backspace();
    assert_eq!(input.fields()[0].buffer, "12.");
    input.advance();
    assert_eq!(input.active(), 1);
    assert_eq!(input.insert_text("-45"), Ok(true));
    assert_eq!(input.fields()[1].buffer, "-45");
    input.advance();
    assert_eq!(input.active(), 0);
}

#[test]
fn only_an_empty_angle_takes_a_minus_sign() {
    let mut length = Field::new(FieldKind::Length);
    assert!(!insert_char(&mut length, '-'));
    let mut angle = Field::new(FieldKind::Angle);
    assert!(insert_char(&mut angle, '-'));
    assert!(!insert_char(&mut angle, '-'));
    assert!(insert_char(&mut angle, '9'));
    assert_eq!(angle.buffer, "-9");
}

#[test]
fn enter_submits_finishes_or_refuses() {
    let mut input = length_angle();
    assert_eq!(input.enter(true, &[true, true]), DynamicKeyResult::FinishEmpty);
    assert_eq!(input.enter(false, &[true, true]), DynamicKeyResult::Submit);
    input.insert_text("0");
    assert_eq!(
        input.enter(true, &[false, true]),
        DynamicKeyResult::Invalid("Length must be a positive number")
    );
    assert_eq!(input.enter(true, &[true, false]), DynamicKeyResult::Submit);
    input.reset_values();
    assert!(!input.has_typed_or_locked());
}

#[test]
fn locking_fills_an_empty_field_with_the_live_value() {
    let mut input = length_angle();
    input.lock_active(Some("5.0000"));
    assert!(input.fields()[0].locked);
    assert_eq!(input.fields()[0].buffer, "5.0000");
    assert!(input.has_typed_or_locked());
    input.backspace();
    assert!(!input.fields()[0].locked);
}

#[test]
fn layouts_and_messages() {
    let kinds: Vec<FieldKind> = fields_for(DynamicLayout::WidthHeight).iter().map(|f| f.kind).collect();
    assert_eq!(kinds, vec![FieldKind::Width, FieldKind::Height]);
    assert_eq!(FieldKind::Factor.label(), "Factor");
    assert!(FieldKind::Angle.allows_minus());
    assert!(!FieldKind::Angle.must_be_positive());
    assert_eq!(invalid_message(FieldKind::Factor), "Scale factor must be greater than zero");
    let mut input = length_angle();
    input.insert_text("3");
    input.set_layout(DynamicLayout::LengthAngle);
    assert_eq!(input.fields()[0].buffer, "3");
    input.set_layout(DynamicLayout::Radius);
    assert_eq!(input.fields().len(), 1);
    assert_eq!(input.fields()[0].buffer, "");
}
