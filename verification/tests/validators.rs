use std::cell::RefCell;
use std::rc::Rc;

use gql_core::directives::run_validators;
use gql_core::directives::OnInputValue;
use gql_core::validators::ListMaxLength;
use gql_core::validators::ListMinLength;
use gql_core::validators::NumberEqual;
use gql_core::validators::NumberGreaterThan;
use gql_core::validators::NumberLessThan;
use gql_core::validators::NumberNonZero;
use gql_core::validators::NumberRange;
use gql_core::InputValueError;
use gql_core::InputValueResult;

fn reason<T>(r: InputValueResult<T>) -> String {
    match r {
        Ok(_) => panic!("expected a rejection"),
        Err(InputValueError::Custom(m)) => m,
    }
}

#[test]
fn test_number_range() {
    let range = NumberRange { min: 0i64, max: 10i64 };
    // Rejected exactly when the value lies below the minimum or above the
    // maximum; both bounds pass.
    assert_eq!(range.input_value(0), Ok(0));
    assert_eq!(range.input_value(10), Ok(10));
    assert_eq!(range.input_value(5), Ok(5));
    assert_eq!(
        reason(range.input_value(-1)),
        "the value is -1, must be between 0 and 10"
    );
    assert_eq!(
        reason(range.input_value(11)),
        "the value is 11, must be between 0 and 10"
    );
}

#[test]
fn test_number_equal() {
    let eq = NumberEqual { value: 7i32 };
    assert_eq!(eq.input_value(7), Ok(7));
    assert_eq!(reason(eq.input_value(8)), "the value is 8, must be equal to 7");
}

#[test]
fn test_number_greater_than() {
    let gt = NumberGreaterThan { value: 0i32 };
    assert_eq!(gt.input_value(1), Ok(1));
    assert_eq!(reason(gt.input_value(0)), "the value is 0, must be greater than 0");
    assert_eq!(
        reason(gt.input_value(-10)),
        "the value is -10, must be greater than 0"
    );
}

#[test]
fn test_number_less_than() {
    let lt = NumberLessThan { value: 10u64 };
    assert_eq!(lt.input_value(10), Ok(10));
    assert_eq!(reason(lt.input_value(11)), "the value is 11, must be less than 10");
}

#[test]
fn test_number_non_zero() {
    let nz = NumberNonZero;
    assert_eq!(nz.input_value(-3i64), Ok(-3));
    assert_eq!(reason(nz.input_value(0i64)), "the value is 0, must be nonzero");
}

#[test]
fn test_list_lengths() {
    let min = ListMinLength { length: 2 };
    let max = ListMaxLength { length: 3 };
    assert_eq!(min.input_value(vec![1, 2]), Ok(vec![1, 2]));
    assert_eq!(
        reason(min.input_value(vec![1])),
        "the value length is 1, must be greater than or equal to 2"
    );
    assert_eq!(max.input_value(vec![1, 2, 3]), Ok(vec![1, 2, 3]));
    assert_eq!(
        reason(max.input_value(vec![1, 2, 3, 4])),
        "the value length is 4, must be less than or equal to 3"
    );
}

/// A validator that records each invocation and can be told to reject.
struct Gate {
    id: u32,
    reject: bool,
    log: Rc<RefCell<Vec<u32>>>,
}

impl OnInputValue<i32> for Gate {
    fn input_value(&self, value: i32) -> InputValueResult<i32> {
        self.log.borrow_mut().push(self.id);
        if self.reject {
            Err(InputValueError::Custom(format!("gate {} refused", self.id)))
        } else {
            Ok(value + 1)
        }
    }

    // The trait's specification items; never called at run time.
    fn accepts(&self, _value: i32) -> bool {
        unreachable!()
    }

    fn transformed(&self, _value: i32) -> i32 {
        unreachable!()
    }

    fn reason(&self, _value: i32) -> vstd::prelude::Seq<char> {
        unreachable!()
    }
}

#[test]
fn test_chain_short_circuits() {
    let log = Rc::new(RefCell::new(Vec::new()));
    let chain = vec![
        Gate { id: 1, reject: true, log: log.clone() },
        Gate { id: 2, reject: false, log: log.clone() },
    ];
    let (outcome, invoked) = run_validators(&chain, 0);
    // The second validator is never invoked once the first rejects.
    assert_eq!(invoked, 1);
    assert_eq!(*log.borrow(), vec![1]);
    assert_eq!(reason(outcome), "gate 1 refused");
}

#[test]
fn test_chain_threads_transformed_values() {
    let log = Rc::new(RefCell::new(Vec::new()));
    let chain = vec![
        Gate { id: 1, reject: false, log: log.clone() },
        Gate { id: 2, reject: false, log: log.clone() },
        Gate { id: 3, reject: false, log: log.clone() },
    ];
    let (outcome, invoked) = run_validators(&chain, 0);
    assert_eq!(invoked, 3);
    assert_eq!(*log.borrow(), vec![1, 2, 3]);
    assert_eq!(outcome, Ok(3));
}

#[test]
fn test_decimal_rendering() {
    assert_eq!(gql_core::u64_to_string(0), "0");
    assert_eq!(gql_core::u64_to_string(18446744073709551615), "18446744073709551615");
    assert_eq!(gql_core::i64_to_string(-90210), "-90210");
    assert_eq!(gql_core::usize_to_string(42), "42");
}
