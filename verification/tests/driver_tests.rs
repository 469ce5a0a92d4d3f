use wacc::compiler_driver::{CompilerDriver, CompilerDriverOption};

#[test]
fn check_config_rejects_missing_input() {
    let driver = CompilerDriver::default();
    let result = driver.check_config();
    assert!(result.is_err());
    assert!(result.unwrap_err().contains("No input file"));
}

#[test]
fn check_config_rejects_wrong_extension() {
    let mut driver = CompilerDriver::default();
    driver.set_filename("program.txt");
    let result = driver.check_config();
    assert!(result.is_err());
    assert!(result.unwrap_err().contains("should end with"));
}

#[test]
fn check_config_accepts_c_file() {
    let mut driver = CompilerDriver::default();
    driver.set_filename("program.c");
    assert!(driver.check_config().is_ok());
}

#[test]
fn derived_filenames_share_the_base() {
    let mut driver = CompilerDriver::default();
    driver.set_filename("dir/program.c");
    assert_eq!(driver.filename_preprocessed(), "dir/program.i");
    assert_eq!(driver.filename_assembly(), "dir/program.s");
    assert_eq!(driver.filename_output(), "dir/program");
}

#[test]
fn stage_ranks_are_ordered() {
    let order = [
        CompilerDriverOption::EmitReferenceAssembly,
        CompilerDriverOption::Lex,
        CompilerDriverOption::Parse,
        CompilerDriverOption::Tacky,
        CompilerDriverOption::Codegen,
        CompilerDriverOption::EmitAssembly,
        CompilerDriverOption::All,
    ];
    for window in order.windows(2) {
        assert!(window[0].rank() < window[1].rank());
    }
}

#[test]
fn default_option_runs_everything() {
    assert_eq!(CompilerDriverOption::default(), CompilerDriverOption::All);
    let driver = CompilerDriver::default();
    assert_eq!(driver.option(), CompilerDriverOption::All);
}

#[test]
fn later_option_wins() {
    let mut driver = CompilerDriver::default();
    driver.set_option(CompilerDriverOption::Lex);
    driver.set_option(CompilerDriverOption::Parse);
    assert_eq!(driver.option(), CompilerDriverOption::Parse);
}
