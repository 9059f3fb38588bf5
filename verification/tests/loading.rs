use remy_core::effects::Effects;
use remy_core::load::Load;
use remy_core::opts::{QueryOpts, ResourceOpts};
use remy_core::period::{Period, MAX_NANOS};
use remy_core::policy::{Backoff, Refresh, Retry};
use remy_core::query::{query, FetchStart, Query};
use remy_core::resource::{
    refresh_task_id, resource, retry_task_id, Completion, Resource, FIRST_QUERY_ID, FIRST_RESOURCE_ID,
};

fn ms(n: u64) -> Period {
    Period::from_millis(n)
}

#[test]
fn exponential_delays_double_up_to_thirty_seconds() {
    let r = Retry::exponential(5, ms(100));
    assert_eq!(r.delay_for_retry(0), None);
    assert_eq!(r.delay_for_retry(1), Some(ms(100)));
    assert_eq!(r.delay_for_retry(2), Some(ms(200)));
    assert_eq!(r.delay_for_retry(3), Some(ms(400)));
    assert_eq!(r.delay_for_retry(4), Some(ms(800)));
    assert_eq!(r.delay_for_retry(5), Some(ms(1600)));
    assert_eq!(r.delay_for_retry(6), None);
    let slow = Retry::exponential(10, Period::from_secs(10));
    assert_eq!(slow.delay_for_retry(2), Some(Period::from_secs(20)));
    assert_eq!(slow.delay_for_retry(3), Some(Period::from_secs(30)));
    assert_eq!(slow.delay_for_retry(9), Some(Period::from_secs(30)));
}

#[test]
fn exponential_delays_are_capped_and_never_shrink() {
    let r = Retry::exponential_max(10, Period::from_secs(1), Period::from_secs(5));
    let delays: Vec<Period> = (1..=10).map(|n| r.delay_for_retry(n).unwrap()).collect();
    assert_eq!(delays[0], Period::from_secs(1));
    assert_eq!(delays[1], Period::from_secs(2));
    assert_eq!(delays[2], Period::from_secs(4));
    assert_eq!(delays[3], Period::from_secs(5));
    for pair in delays.windows(2) {
        assert!(pair[0].nanos <= pair[1].nanos);
    }
    assert!(delays.iter().all(|d| d.nanos <= Period::from_secs(5).nanos));
}

#[test]
fn doubling_stops_after_thirty_one_steps() {
    let r = Retry::exponential_max(40, Period::from_nanos(1), Period::from_secs(100));
    assert_eq!(r.delay_for_retry(32), Some(Period::from_nanos(1u64 << 31)));
    assert_eq!(r.delay_for_retry(40), Some(Period::from_nanos(1u64 << 31)));
    let huge = Retry::exponential_max(3, Period { nanos: MAX_NANOS }, Period { nanos: MAX_NANOS });
    assert_eq!(huge.delay_for_retry(3), Some(Period { nanos: MAX_NANOS }));
}

#[test]
fn fixed_delays_stay_the_same() {
    let r = Retry::fixed(3, ms(50));
    assert_eq!(r.backoff, Backoff::Fixed);
    assert_eq!(r.delay_for_retry(1), Some(ms(50)));
    assert_eq!(r.delay_for_retry(3), Some(ms(50)));
    assert_eq!(r.delay_for_retry(4), None);
    assert_eq!(Retry::none().delay_for_retry(1), None);
}

#[test]
fn periods_convert_units() {
    assert_eq!(Period::from_secs(2).as_nanos(), 2_000_000_000);
    assert_eq!(Period::from_millis(3).as_nanos(), 3_000_000);
    assert_eq!(Period::from_nanos(7).as_nanos(), 7);
    assert_eq!(Period::zero().as_nanos(), 0);
    assert_eq!(Period::from_secs(u64::MAX).saturating_mul(2).nanos, MAX_NANOS);
    assert_eq!(ms(3).saturating_mul(4), ms(12));
    assert_eq!(ms(3).min(ms(2)), ms(2));
}

#[test]
fn task_ids_flip_their_own_bit() {
    assert_eq!(retry_task_id(FIRST_RESOURCE_ID), 0xA000_0000);
    assert_eq!(refresh_task_id(FIRST_RESOURCE_ID), 0xC000_0000);
    assert_eq!(retry_task_id(FIRST_QUERY_ID + 5), 0xB000_0005);
    assert_eq!(refresh_task_id(FIRST_QUERY_ID + 5), 0xD000_0005);
    assert_eq!(retry_task_id(retry_task_id(FIRST_RESOURCE_ID + 9)), FIRST_RESOURCE_ID + 9);
    assert_ne!(retry_task_id(FIRST_RESOURCE_ID + 1), refresh_task_id(FIRST_RESOURCE_ID + 1));
}

#[test]
fn load_status_is_pending_or_settled() {
    for s in [Load::Initial, Load::Loading, Load::Success, Load::Refreshing, Load::Error] {
        assert_eq!(s.is_pending(), !s.is_settled());
    }
    assert!(Load::Loading.is_pending());
    assert!(Load::Refreshing.is_pending());
    assert!(Load::Success.is_settled());
    assert!(Load::Error.is_error());
    assert!(Load::Initial.is_initial());
}

#[test]
fn resource_loads_then_refreshes() {
    let mut r: Resource<i32, String> = Resource::new(None, ResourceOpts::default(), 4, 9, FIRST_RESOURCE_ID);
    assert!(r.is_initial());
    assert_eq!(r.latest(), None);
    let run = r.begin_run();
    assert!(run.cancel_retry);
    assert_eq!(run.start_refresh, None);
    assert_eq!(run.generation, 1);
    assert!(r.is_loading());
    assert_eq!(r.complete(1, Ok(5)), Completion::Succeeded);
    assert!(r.is_success());
    assert_eq!(r.value(), Some(&5));
    let again = r.begin_run();
    assert_eq!(again.generation, 2);
    assert!(r.is_refreshing());
    assert!(r.is_pending());
    assert_eq!(r.value(), Some(&5));
    assert_eq!(r.id(), 4);
    assert_eq!(r.refetch(), 9);
}

#[test]
fn superseded_result_is_dropped() {
    let mut r: Resource<i32, String> = Resource::new(Some(0), ResourceOpts::default(), 1, 1, FIRST_RESOURCE_ID);
    let first = r.begin_run().generation;
    let second = r.begin_run().generation;
    assert_ne!(first, second);
    assert_eq!(r.complete(first, Ok(1)), Completion::Outdated);
    assert!(r.is_loading());
    assert_eq!(r.latest(), Some(&0));
    assert_eq!(r.complete(second, Ok(2)), Completion::Succeeded);
    assert_eq!(r.latest(), Some(&2));
}

#[test]
fn failed_fetch_asks_for_retry_with_backoff() {
    let opts = ResourceOpts::default().retry(Retry::exponential(2, ms(100)));
    let mut r: Resource<i32, &'static str> = Resource::new(None, opts, 1, 1, FIRST_RESOURCE_ID);
    let g = r.begin_run().generation;
    assert_eq!(r.complete(g, Err("down")), Completion::Failed(Some(ms(100))));
    assert!(r.is_error());
    assert_eq!(r.error(), Some(&"down"));
    r.retry_fired();
    let run = r.begin_run();
    assert!(!run.cancel_retry);
    assert_eq!(r.complete(run.generation, Err("again")), Completion::Failed(Some(ms(200))));
    r.retry_fired();
    let run = r.begin_run();
    assert_eq!(r.complete(run.generation, Err("last")), Completion::Failed(None));
    let fresh = r.begin_run();
    assert!(fresh.cancel_retry);
    assert_eq!(r.complete(fresh.generation, Err("fresh")), Completion::Failed(Some(ms(100))));
}

#[test]
fn refresh_starts_on_first_run_only() {
    let opts = ResourceOpts::default().refresh_every(Period::from_secs(60));
    assert_eq!(opts.refresh, Refresh::Every(Period::from_secs(60)));
    let mut r: Resource<i32, ()> = Resource::new(None, opts, 1, 1, FIRST_RESOURCE_ID);
    assert_eq!(r.begin_run().start_refresh, Some(Period::from_secs(60)));
    assert_eq!(r.begin_run().start_refresh, None);
}

#[test]
fn cancel_reset_and_placeholder() {
    let mut r: Resource<i32, ()> = Resource::new(Some(-1), ResourceOpts::default(), 1, 1, FIRST_RESOURCE_ID);
    assert_eq!(r.latest(), Some(&-1));
    assert_eq!(r.value(), None);
    r.begin_run();
    r.cancel();
    assert!(r.is_initial());
    let g = r.begin_run().generation;
    r.complete(g, Ok(3));
    r.begin_run();
    r.cancel();
    assert!(r.is_success());
    r.reset();
    assert!(r.is_initial());
    assert!(!r.has_value());
    assert_eq!(r.latest(), Some(&-1));
}

#[test]
fn rollback_undoes_optimistic_update() {
    let mut r: Resource<i32, ()> = Resource::new(None, ResourceOpts::default(), 1, 1, FIRST_RESOURCE_ID);
    r.mutate(|v| v + 1);
    assert_eq!(r.latest(), None);
    let g = r.begin_run().generation;
    r.complete(g, Ok(10));
    r.mutate(|v| v * 2);
    assert_eq!(r.value(), Some(&20));
    r.rollback();
    assert_eq!(r.value(), Some(&10));
    r.rollback();
    assert_eq!(r.value(), Some(&10));
}

#[test]
fn resource_declaration_builds_options() {
    let init = resource::<_, i32, ()>(|| 1)
        .placeholder(0)
        .retry(Retry::fixed(2, ms(10)))
        .refresh_every(Period::from_secs(1));
    assert_eq!(init.placeholder, Some(0));
    assert_eq!(init.options.retry, Retry::fixed(2, ms(10)));
    assert_eq!(init.options.refresh, Refresh::Every(Period::from_secs(1)));
    assert_eq!((init.source)(), 1);
    let plain = resource::<_, i32, ()>(|| 2);
    assert_eq!(plain.options, ResourceOpts::default());
}

fn secs(n: u64) -> Period {
    Period::from_secs(n)
}

#[test]
fn query_fetches_and_keeps_value_on_error() {
    let mut q: Query<i32, &'static str> = Query::new(0, QueryOpts::default(), 2, 3, FIRST_QUERY_ID);
    assert_eq!(*q.data(), 0);
    assert_eq!(q.value(), None);
    let g = match q.begin_fetch(1, secs(0)) {
        FetchStart::Started(g) => g,
        other => panic!("expected a fetch, got {:?}", other),
    };
    assert!(q.is_loading());
    assert!(q.loading());
    assert!(q.complete(g, 1, Ok(7), secs(1)));
    assert_eq!(q.value(), Some(&7));
    let g2 = match q.begin_fetch(1, secs(2)) {
        FetchStart::Started(g) => g,
        other => panic!("expected a fetch, got {:?}", other),
    };
    assert!(q.stale());
    assert!(q.is_refreshing());
    assert!(!q.complete(g, 1, Ok(8), secs(3)));
    assert!(q.complete(g2, 1, Err("offline"), secs(3)));
    assert!(q.is_error());
    assert_eq!(q.error(), Some(&"offline"));
    assert_eq!(*q.latest(), 7);
    assert_eq!(q.value_or(1), 7);
    assert_eq!(q.map_value(|v| v * 2), Some(14));
    assert_eq!(q.with(|v| *v + 1), 8);
    assert_eq!(q.id(), 2);
    assert_eq!(q.refetch(), 3);
}

#[test]
fn query_skips_fetch_of_key_in_flight() {
    let opts = QueryOpts::default().dedupe();
    let mut q: Query<i32, ()> = Query::new(0, opts, 1, 1, FIRST_QUERY_ID);
    let g1 = match q.begin_fetch(7, secs(0)) {
        FetchStart::Started(g) => g,
        other => panic!("expected a fetch, got {:?}", other),
    };
    assert_eq!(q.begin_fetch(7, secs(1)), FetchStart::Skipped);
    assert!(q.is_loading());
    let g2 = match q.begin_fetch(8, secs(1)) {
        FetchStart::Started(g) => g,
        other => panic!("expected a fetch, got {:?}", other),
    };
    assert_ne!(g1, g2);
    assert!(!q.complete(g1, 7, Ok(1), secs(2)));
    assert_eq!(q.begin_fetch(8, secs(2)), FetchStart::Skipped);
    assert!(q.complete(g2, 8, Ok(2), secs(3)));
    assert!(matches!(q.begin_fetch(8, secs(4)), FetchStart::Started(_)));
}

#[test]
fn query_serves_fresh_cache_only() {
    let opts = QueryOpts::default().dedupe().cache_for(secs(5));
    let mut q: Query<i32, ()> = Query::new(0, opts, 1, 1, FIRST_QUERY_ID);
    let g = match q.begin_fetch(7, secs(0)) {
        FetchStart::Started(g) => g,
        other => panic!("expected a fetch, got {:?}", other),
    };
    assert!(q.complete(g, 7, Ok(42), secs(2)));
    assert_eq!(q.begin_fetch(7, secs(7)), FetchStart::Served);
    assert!(q.is_success());
    assert_eq!(q.value(), Some(&42));
    assert!(matches!(q.begin_fetch(7, secs(8)), FetchStart::Started(_)));
    assert!(matches!(q.begin_fetch(9, secs(8)), FetchStart::Started(_)));
    let plain: Query<i32, ()> = Query::new(5, QueryOpts::default(), 1, 1, FIRST_QUERY_ID);
    assert_eq!(plain.value_or(9), 9);
    assert_eq!(plain.value_or_else(|| 10), 10);
    assert_eq!(plain.map_value(|v| *v), None);
}

#[test]
fn query_cancel_settles_status_and_drops_result() {
    let mut q: Query<i32, ()> = Query::new(0, QueryOpts::default().dedupe(), 1, 1, FIRST_QUERY_ID);
    let g = match q.begin_fetch(1, secs(0)) {
        FetchStart::Started(g) => g,
        other => panic!("expected a fetch, got {:?}", other),
    };
    q.cancel();
    assert!(q.is_initial());
    assert!(q.is_settled());
    assert!(!q.complete(g, 1, Ok(5), secs(1)));
    assert_eq!(q.value(), None);
    assert!(matches!(q.begin_fetch(1, secs(1)), FetchStart::Started(_)));
}

#[test]
fn query_install_registers_its_effect() {
    let mut fx: Effects<&'static str> = Effects::new();
    fx.register("other");
    let q: Query<i32, ()> = Query::install(3, QueryOpts::default(), &mut fx, "fetch", 4, FIRST_QUERY_ID);
    assert_eq!(q.refetch(), 1);
    assert_eq!(q.id(), 4);
    assert_eq!(*q.data(), 3);
    fx.track_read(Some(0), 4);
    assert_eq!(*q.data_tracked(&mut fx, Some(1)), 3);
    assert_eq!(fx.run_slots(&[4]), vec![0, 1]);
    let r: Resource<i32, ()> = Resource::install_with(None, ResourceOpts::default(), &mut fx, "run", 5, FIRST_RESOURCE_ID);
    assert_eq!(r.refetch(), 2);
}

#[test]
fn cancelled_run_result_is_outdated() {
    let mut r: Resource<i32, ()> = Resource::new(None, ResourceOpts::default(), 1, 1, FIRST_RESOURCE_ID);
    let g = r.begin_run().generation;
    r.cancel();
    assert_eq!(r.complete(g, Ok(1)), Completion::Outdated);
    assert!(r.is_initial());
}

#[test]
fn query_declaration_builds_options() {
    let init = query::<_, _, u32, i32, ()>(|| 1u32, |k: u32| k as i32).placeholder(3).dedupe().cache_for(ms(5));
    assert_eq!(init.placeholder, Some(3));
    assert!(init.options.dedupe);
    assert_eq!(init.options.cache_for, Some(ms(5)));
    assert_eq!((init.fetch)((init.key_fn)()), 1);
}
