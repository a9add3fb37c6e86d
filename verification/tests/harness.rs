use rust_os::harness::{test_runner, QemuExitcode, Testable};
use std::cell::Cell;
use std::rc::Rc;

struct Counting(Rc<Cell<u32>>);

impl Testable for Counting {
    fn run(&self) {
        self.0.set(self.0.get() + 1);
    }
}

#[test]
fn exit_code_tags_are_stable() {
    assert_eq!(QemuExitcode::Success.tag(), 0x10);
    assert_eq!(QemuExitcode::Fail.tag(), 0x11);
    assert_ne!(QemuExitcode::Success.tag(), QemuExitcode::Fail.tag());
}

#[test]
fn runner_runs_every_test_and_reports_success() {
    let count = Rc::new(Cell::new(0));
    let tests = vec![
        Counting(count.clone()),
        Counting(count.clone()),
        Counting(count.clone()),
    ];
    let code = test_runner(&tests);
    assert_eq!(count.get(), 3);
    assert_eq!(code, QemuExitcode::Success);
}

#[test]
fn runner_with_no_tests_still_succeeds() {
    let tests: Vec<Counting> = Vec::new();
    assert_eq!(test_runner(&tests), QemuExitcode::Success);
}

#[test]
fn trivial_assertion() {
    assert_eq!(1, 1);
}
