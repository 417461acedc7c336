use std::sync::Arc;
use std::sync::Mutex;

use beany::AsyncBean;
use beany::AsyncTryBean;
use beany::Bean;
use beany::BeansContext;
use beany::ResolveError;
use beany::Shared;
use beany::TryBean;
use beany::TryError;

#[derive(Clone)]
struct Message;

impl Bean for Message {
    fn key() -> u64 {
        1
    }

    fn create(_ctx: &mut BeansContext) -> Self {
        Message
    }
}

#[derive(Clone)]
struct Messager {
    message: Shared<Message>,
}

impl Bean for Messager {
    fn key() -> u64 {
        2
    }

    fn create(ctx: &mut BeansContext) -> Self {
        Messager { message: ctx.get::<Message>().unwrap() }
    }
}

#[derive(Clone)]
struct TestService {
    messager: Messager,
}

impl Bean for TestService {
    fn key() -> u64 {
        3
    }

    fn create(ctx: &mut BeansContext) -> Self {
        TestService { messager: (*ctx.get::<Messager>().unwrap().value).clone() }
    }
}

#[test]
fn test_di() {
    let mut ctx = BeansContext::default();

    let test_service = ctx.get::<TestService>();
    assert!(test_service.is_ok());
}

#[derive(Clone)]
struct AsyncMessage;

impl AsyncBean for AsyncMessage {
    fn key() -> u64 {
        4
    }

    fn create(_ctx: &mut BeansContext) -> Self {
        AsyncMessage
    }
}

#[derive(Clone)]
struct AsyncMessager {
    message: Shared<AsyncMessage>,
}

impl AsyncBean for AsyncMessager {
    fn key() -> u64 {
        5
    }

    fn create(ctx: &mut BeansContext) -> Self {
        AsyncMessager { message: ctx.get_async::<AsyncMessage>().unwrap() }
    }
}

#[derive(Clone)]
struct AsyncTestService {
    messager: AsyncMessager,
}

impl AsyncBean for AsyncTestService {
    fn key() -> u64 {
        6
    }

    fn create(ctx: &mut BeansContext) -> Self {
        AsyncTestService { messager: (*ctx.get_async::<AsyncMessager>().unwrap().value).clone() }
    }
}

#[test]
fn test_async_di() {
    let mut ctx = BeansContext::default();

    let test_service = ctx.get_async::<AsyncTestService>();
    assert!(test_service.is_ok());
}

#[derive(Clone)]
struct TryMessage;

impl TryBean for TryMessage {
    type Error = String;

    fn key() -> u64 {
        7
    }

    fn create(_ctx: &mut BeansContext) -> Result<Self, String> {
        Ok(TryMessage)
    }
}

#[derive(Clone)]
struct TryMessager {
    message: Shared<TryMessage>,
}

impl TryBean for TryMessager {
    type Error = String;

    fn key() -> u64 {
        8
    }

    fn create(ctx: &mut BeansContext) -> Result<Self, String> {
        match ctx.try_get::<TryMessage>() {
            Ok(shared) => Ok(TryMessager { message: shared }),
            Err(_) => Err(String::from("dependency failed")),
        }
    }
}

#[derive(Clone)]
struct TryTestService {
    messager: TryMessager,
}

impl TryBean for TryTestService {
    type Error = String;

    fn key() -> u64 {
        9
    }

    fn create(ctx: &mut BeansContext) -> Result<Self, String> {
        match ctx.try_get::<TryMessager>() {
            Ok(shared) => Ok(TryTestService { messager: (*shared.value).clone() }),
            Err(_) => Err(String::from("dependency failed")),
        }
    }
}

#[test]
fn test_try_di() {
    let mut ctx = BeansContext::default();

    let _test_service = ctx.try_get::<TryTestService>().unwrap();
}

#[derive(Clone)]
struct AsyncTryMessage;

impl AsyncTryBean for AsyncTryMessage {
    type Error = String;

    fn key() -> u64 {
        10
    }

    fn create(_ctx: &mut BeansContext) -> Result<Self, String> {
        Ok(AsyncTryMessage)
    }
}

#[derive(Clone)]
struct AsyncTryMessager {
    message: Shared<AsyncTryMessage>,
}

impl AsyncTryBean for AsyncTryMessager {
    type Error = String;

    fn key() -> u64 {
        11
    }

    fn create(ctx: &mut BeansContext) -> Result<Self, String> {
        match ctx.try_get_async::<AsyncTryMessage>() {
            Ok(shared) => Ok(AsyncTryMessager { message: shared }),
            Err(_) => Err(String::from("dependency failed")),
        }
    }
}

#[derive(Clone)]
struct AsyncTryTestService {
    messager: AsyncTryMessager,
}

impl AsyncTryBean for AsyncTryTestService {
    type Error = String;

    fn key() -> u64 {
        12
    }

    fn create(ctx: &mut BeansContext) -> Result<Self, String> {
        match ctx.try_get_async::<AsyncTryMessager>() {
            Ok(shared) => Ok(AsyncTryTestService { messager: (*shared.value).clone() }),
            Err(_) => Err(String::from("dependency failed")),
        }
    }
}

#[test]
fn test_async_try_di() {
    let mut ctx = BeansContext::default();

    let _test_service = ctx.try_get_async::<AsyncTryTestService>().unwrap();
}

#[test]
fn repeated_resolution_returns_identical_instance() {
    let mut ctx = BeansContext::new();

    let first = ctx.get::<Message>().unwrap();
    let second = ctx.get::<Message>().unwrap();
    assert!(Arc::ptr_eq(&first.value, &second.value));

    let first_async = ctx.get_async::<AsyncMessage>().unwrap();
    let second_async = ctx.get_async::<AsyncMessage>().unwrap();
    assert!(Arc::ptr_eq(&first_async.value, &second_async.value));
}

#[test]
fn embedded_dependency_is_shared_with_independent_resolution() {
    let mut ctx = BeansContext::new();

    let messager = ctx.get::<Messager>().unwrap();
    let message = ctx.get::<Message>().unwrap();
    assert!(Arc::ptr_eq(&messager.value.message.value, &message.value));
}

struct SyncTwin;

impl Bean for SyncTwin {
    fn key() -> u64 {
        21
    }

    fn create(_ctx: &mut BeansContext) -> Self {
        SyncTwin
    }
}

struct AsyncTwin;

impl AsyncBean for AsyncTwin {
    fn key() -> u64 {
        21
    }

    fn create(_ctx: &mut BeansContext) -> Self {
        AsyncTwin
    }
}

#[test]
fn stores_of_the_two_families_are_independent() {
    let mut ctx = BeansContext::new();

    // The same identifying key may appear in both stores without the two
    // entries colliding: each family resolves its own instance.
    let sync_twin = ctx.get::<SyncTwin>();
    assert!(sync_twin.is_ok());
    let async_twin = ctx.get_async::<AsyncTwin>();
    assert!(async_twin.is_ok());
    assert!(ctx.get::<SyncTwin>().is_ok());
    assert!(ctx.get_async::<AsyncTwin>().is_ok());
}

struct Counter {
    hits: Mutex<u32>,
}

impl Bean for Counter {
    fn key() -> u64 {
        40
    }

    fn create(_ctx: &mut BeansContext) -> Self {
        Counter { hits: Mutex::new(0) }
    }
}

struct Flaky;

impl TryBean for Flaky {
    type Error = String;

    fn key() -> u64 {
        41
    }

    fn create(ctx: &mut BeansContext) -> Result<Self, String> {
        let counter = ctx.get::<Counter>().unwrap();
        let mut hits = counter.value.hits.lock().unwrap();
        *hits += 1;
        if *hits < 2 {
            Err(String::from("not ready yet"))
        } else {
            Ok(Flaky)
        }
    }
}

#[test]
fn failed_construction_is_not_cached_and_is_retried() {
    let mut ctx = BeansContext::new();

    let counter = ctx.get::<Counter>().unwrap();
    let first = ctx.try_get::<Flaky>();
    assert!(matches!(first, Err(TryError::Construction(_))));
    assert_eq!(*counter.value.hits.lock().unwrap(), 1);

    // The failure was not cached: the constructor runs again and succeeds.
    let second = ctx.try_get::<Flaky>();
    assert!(second.is_ok());
    assert_eq!(*counter.value.hits.lock().unwrap(), 2);

    // The success is cached: a further resolution constructs nothing.
    let third = ctx.try_get::<Flaky>();
    assert!(third.is_ok());
    assert_eq!(*counter.value.hits.lock().unwrap(), 2);
}

struct AsyncCounter {
    hits: Mutex<u32>,
}

impl AsyncBean for AsyncCounter {
    fn key() -> u64 {
        42
    }

    fn create(_ctx: &mut BeansContext) -> Self {
        AsyncCounter { hits: Mutex::new(0) }
    }
}

struct AsyncFlaky;

impl AsyncTryBean for AsyncFlaky {
    type Error = String;

    fn key() -> u64 {
        43
    }

    fn create(ctx: &mut BeansContext) -> Result<Self, String> {
        let counter = ctx.get_async::<AsyncCounter>().unwrap();
        let mut hits = counter.value.hits.lock().unwrap();
        *hits += 1;
        if *hits < 2 {
            Err(String::from("not ready yet"))
        } else {
            Ok(AsyncFlaky)
        }
    }
}

#[test]
fn async_failed_construction_is_not_cached_and_is_retried() {
    let mut ctx = BeansContext::new();

    let counter = ctx.get_async::<AsyncCounter>().unwrap();
    let first = ctx.try_get_async::<AsyncFlaky>();
    assert!(matches!(first, Err(TryError::Construction(_))));
    assert_eq!(*counter.value.hits.lock().unwrap(), 1);

    let second = ctx.try_get_async::<AsyncFlaky>();
    assert!(second.is_ok());
    assert_eq!(*counter.value.hits.lock().unwrap(), 2);
}

struct FirstClaimant;

impl Bean for FirstClaimant {
    fn key() -> u64 {
        50
    }

    fn create(_ctx: &mut BeansContext) -> Self {
        FirstClaimant
    }
}

struct SecondClaimant;

impl Bean for SecondClaimant {
    fn key() -> u64 {
        50
    }

    fn create(_ctx: &mut BeansContext) -> Self {
        SecondClaimant
    }
}

struct TryClaimant;

impl TryBean for TryClaimant {
    type Error = String;

    fn key() -> u64 {
        50
    }

    fn create(_ctx: &mut BeansContext) -> Result<Self, String> {
        Ok(TryClaimant)
    }
}

#[test]
fn forced_key_collision_reports_a_mismatch() {
    let mut ctx = BeansContext::new();

    // Adversarially give two distinct types the same identifying key: the
    // second resolution must report the mismatch loudly, never coerce.
    let first = ctx.get::<FirstClaimant>();
    assert!(first.is_ok());
    let clash = ctx.get::<SecondClaimant>();
    assert!(matches!(clash, Err(ResolveError::TypeMismatch)));
    let try_clash = ctx.try_get::<TryClaimant>();
    assert!(matches!(try_clash, Err(TryError::TypeMismatch)));

    // The original claimant is untouched and still resolvable.
    assert!(ctx.get::<FirstClaimant>().is_ok());
}
