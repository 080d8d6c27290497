use embedded_hal_stubs::error::TestError;
use embedded_hal_stubs::responses::{will_return, Returns};

struct TestStub {
    on_test_method: Returns<Result<(), TestError>>,
}

impl TestStub {
    fn arrange() -> Self {
        TestStub {
            on_test_method: will_return(Ok(())).always(),
        }
    }

    fn test_method(mut self, result: Returns<Result<(), TestError>>) -> Self {
        self.on_test_method = result;
        self
    }

    fn go(self) -> TestStubRunner {
        TestStubRunner {
            on_test_method: self.on_test_method,
        }
    }
}

struct TestStubRunner {
    on_test_method: Returns<Result<(), TestError>>,
}

impl TestStubRunner {
    fn test_method(&mut self, _: &[u8]) -> Result<(), TestError> {
        self.on_test_method.get_match()
    }

    fn exhausted(&self) -> bool {
        !self.on_test_method.has_match()
    }
}

#[test]
fn should_return_default_result() {
    let mut stub = TestStub::arrange().go();

    assert_eq!(stub.test_method(&[8u8, 7u8, 6u8]), Ok(()));
}

#[test]
fn should_return_arranged_result() {
    let mut stub = TestStub::arrange()
        .test_method(will_return(Err(TestError::StubbedError)).once())
        .go();

    assert_eq!(
        stub.test_method(&[8u8, 7u8, 6u8]),
        Err(TestError::StubbedError)
    );
}

#[test]
fn should_return_once_result_only_once() {
    let mut stub = TestStub::arrange()
        .test_method(will_return(Err(TestError::StubbedError)).once())
        .go();

    assert_eq!(
        stub.test_method(&[8u8, 7u8, 6u8]),
        Err(TestError::StubbedError)
    );

    // A second call would find no expected result available.
    assert!(stub.exhausted());
}

#[test]
fn should_return_twice_results_twice() {
    let mut stub = TestStub::arrange()
        .test_method(will_return(Err(TestError::StubbedError)).twice())
        .go();

    for _ in 0..2 {
        assert_eq!(
            stub.test_method(&[8u8, 7u8, 6u8]),
            Err(TestError::StubbedError)
        );
    }

    // A third call would find no expected result available.
    assert!(stub.exhausted());
}

#[test]
fn should_return_times_returns_n_times() {
    let n = 48;
    let mut stub = TestStub::arrange()
        .test_method(will_return(Err(TestError::StubbedError)).times(n))
        .go();

    for _ in 0..n {
        assert!(!stub.exhausted());
        assert_eq!(stub.test_method(&[]), Err(TestError::StubbedError));
    }

    assert!(stub.exhausted());
}

#[test]
fn should_sequence_multiple_once_results() {
    let mut stub = TestStub::arrange()
        .test_method(
            will_return(Err(TestError::StubbedError))
                .once()
                .will_return(Ok(()))
                .once(),
        )
        .go();

    // The first time should return the first result
    assert_eq!(
        stub.test_method(&[8u8, 7u8, 6u8]),
        Err(TestError::StubbedError)
    );

    // The second time the second result
    assert_eq!(stub.test_method(&[8u8, 7u8, 6u8]), Ok(()));

    // Exhausted after that
    assert!(stub.exhausted());
}

#[test]
fn should_return_always_result_multiple_times() {
    let mut stub = TestStub::arrange()
        .test_method(will_return(Err(TestError::StubbedError)).always())
        .go();

    for _ in [0..20].iter() {
        assert_eq!(
            stub.test_method(&[8u8, 7u8, 6u8]),
            Err(TestError::StubbedError)
        );
    }
}

#[test]
fn should_return_always_result_after_once() {
    let mut stub = TestStub::arrange()
        .test_method(
            will_return(Ok(()))
                .once()
                .will_return(Err(TestError::StubbedError))
                .always(),
        )
        .go();

    // First return the 'once' result
    assert_eq!(stub.test_method(&[8u8, 7u8, 6u8]), Ok(()));

    // And the 'always' result after that
    for _ in [0..20].iter() {
        assert_eq!(
            stub.test_method(&[8u8, 7u8, 6u8]),
            Err(TestError::StubbedError)
        );
    }
}

#[test]
fn unconfigured_operation_succeeds_on_many_calls() {
    let mut stub = TestStub::arrange().go();
    for _ in 0..1000 {
        assert_eq!(stub.test_method(&[]), Ok(()));
    }
    assert!(!stub.exhausted());
}

#[test]
fn always_never_exhausts_over_ten_thousand_calls() {
    let mut values = will_return(Err::<(), TestError>(TestError::StubbedError)).always();
    for _ in 0..10_000 {
        assert!(values.has_match());
        assert_eq!(values.get_match(), Err(TestError::StubbedError));
    }
    assert!(values.has_match());
}

#[test]
fn times_one_behaves_as_once() {
    let mut values = will_return(7u32).times(1);
    assert!(values.has_match());
    assert_eq!(values.get_match(), 7);
    assert!(!values.has_match());
}

#[test]
fn error_then_success_then_exhausted() {
    let mut values = will_return(Err::<(), TestError>(TestError::StubbedError))
        .once()
        .will_return(Ok(()))
        .once();
    assert_eq!(values.get_match(), Err(TestError::StubbedError));
    assert_eq!(values.get_match(), Ok(()));
    assert!(!values.has_match());
}

#[test]
fn success_then_error_for_every_later_call() {
    let mut values = will_return(Ok(()))
        .once()
        .will_return(Err(TestError::StubbedError))
        .always();
    assert_eq!(values.get_match(), Ok(()));
    for _ in 2..=100 {
        assert_eq!(values.get_match(), Err(TestError::StubbedError));
    }
    assert!(values.has_match());
}

#[test]
fn empty_sequence_is_exhausted() {
    let values: Returns<u8> = Returns::default();
    assert!(!values.has_match());
}

#[test]
fn spent_responses_are_skipped_in_order() {
    let mut values = will_return(1u8)
        .twice()
        .will_return(2u8)
        .once()
        .will_return(3u8)
        .times(3);
    let mut seen = Vec::new();
    while values.has_match() {
        seen.push(values.get_match());
    }
    assert_eq!(seen, vec![1, 1, 2, 3, 3, 3]);
}

#[test]
fn earlier_unlimited_response_shadows_later_ones() {
    let mut values = will_return(5u8).always().will_return(6u8).once();
    for _ in 0..10 {
        assert_eq!(values.get_match(), 5);
    }
    assert!(values.has_match());
}
