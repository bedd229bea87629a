use bela::generate::gpio_setup_is_documented;

#[test]
fn a_banner_between_the_block_and_the_function_is_documentation() {
    let generated = "unsafe extern \"C\" {\n    #[doc = \" gpio_functions\"]\n    pub fn gpio_setup(pin: u32) -> i32;\n}\n";
    assert!(gpio_setup_is_documented(generated));
}

#[test]
fn an_undocumented_function_is_not() {
    let generated = "unsafe extern \"C\" {\n    #[doc = \" other\"]\n    pub fn other();\n}\nunsafe extern \"C\" {\n    pub fn gpio_setup(pin: u32) -> i32;\n}\n";
    assert!(!gpio_setup_is_documented(generated));
}

#[test]
fn no_function_and_no_block_are_no_documentation() {
    assert!(!gpio_setup_is_documented("unsafe extern \"C\" { #[doc = \"x\"] }"));
    assert!(!gpio_setup_is_documented("#[doc = \"x\"] pub fn gpio_setup();"));
    assert!(!gpio_setup_is_documented(""));
}
