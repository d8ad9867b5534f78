use firefly_main::writer::{Error, Writer};

type W = Writer<&'static str, u32, Vec<u8>>;

fn writer() -> W {
    Writer::new("bus", vec![1], vec![2])
}

#[test]
fn new_writer_has_both_buffers_in_order() {
    let mut w = writer();
    assert_eq!(w.try_take_buffer::<()>().unwrap(), Some(vec![1]));
    assert_eq!(w.try_take_buffer::<()>().unwrap(), Some(vec![2]));
    assert_eq!(w.try_take_buffer::<()>().unwrap(), None);
}

#[test]
fn new_writer_owns_the_idle_bus() {
    let mut w = writer();
    assert!(matches!(w.begin_wait::<()>(), Ok(None)));
    assert!(matches!(w.take_bus::<()>(), Ok("bus")));
}

#[test]
fn put_buffer_into_full_pool_fails() {
    let mut w = writer();
    assert!(matches!(w.put_buffer::<()>(vec![3]), Err(Error::TooManyBuffers)));
    // The pool is unchanged.
    assert_eq!(w.try_take_buffer::<()>().unwrap(), Some(vec![1]));
    assert_eq!(w.try_take_buffer::<()>().unwrap(), Some(vec![2]));
}

#[test]
fn put_buffer_fills_first_empty_slot() {
    let mut w = writer();
    w.try_take_buffer::<()>().unwrap();
    w.try_take_buffer::<()>().unwrap();
    w.put_buffer::<()>(vec![9]).unwrap();
    w.put_buffer::<()>(vec![8]).unwrap();
    assert_eq!(w.try_take_buffer::<()>().unwrap(), Some(vec![9]));
    assert_eq!(w.try_take_buffer::<()>().unwrap(), Some(vec![8]));
}

#[test]
fn put_undoes_take() {
    let mut w = writer();
    let b = w.try_take_buffer::<()>().unwrap().unwrap();
    w.put_buffer::<()>(b).unwrap();
    let mut got = vec![
        w.try_take_buffer::<()>().unwrap().unwrap(),
        w.try_take_buffer::<()>().unwrap().unwrap(),
    ];
    got.sort();
    assert_eq!(got, vec![vec![1], vec![2]]);
}

#[test]
fn take_after_put_gets_a_buffer() {
    let mut w = writer();
    w.try_take_buffer::<()>().unwrap();
    w.try_take_buffer::<()>().unwrap();
    w.put_buffer::<()>(vec![5]).unwrap();
    assert_eq!(w.try_take_buffer::<()>().unwrap(), Some(vec![5]));
}

#[test]
fn take_after_wait_on_empty_pool_is_out_of_buffers() {
    let mut w = writer();
    w.try_take_buffer::<()>().unwrap();
    w.try_take_buffer::<()>().unwrap();
    assert!(matches!(w.take_after_wait::<()>(), Err(Error::OutOfBuffers)));
}

#[test]
fn take_after_wait_takes_first_buffer() {
    let mut w = writer();
    assert_eq!(w.take_after_wait::<()>().unwrap(), vec![1]);
}

#[test]
fn transfer_cycle_returns_bus_and_buffer() {
    let mut w = writer();
    let buf = w.try_take_buffer::<()>().unwrap().unwrap();
    let bus = w.take_bus::<()>().unwrap();
    assert_eq!(bus, "bus");
    // The bus is lent out: nothing holds it.
    assert!(matches!(w.begin_wait::<()>(), Err(Error::BusIsBusy)));
    w.transfer_started(7);
    // A transfer is in flight: waiting hands it out.
    assert!(matches!(w.begin_wait::<()>(), Ok(Some(7))));
    w.finish_wait::<()>(Ok(()), bus, buf).unwrap();
    // After a successful wait the bus is idle again and both buffers are back.
    assert!(matches!(w.begin_wait::<()>(), Ok(None)));
    assert_eq!(w.try_take_buffer::<()>().unwrap(), Some(vec![1]));
    assert_eq!(w.try_take_buffer::<()>().unwrap(), Some(vec![2]));
}

#[test]
fn finish_wait_reports_dma_error_after_returning_buffer() {
    let mut w = writer();
    let buf = w.try_take_buffer::<&str>().unwrap().unwrap();
    let bus = w.take_bus::<&str>().unwrap();
    w.transfer_started(1);
    let _fut = w.begin_wait::<&str>().unwrap();
    assert!(matches!(w.finish_wait(Err("late"), bus, buf), Err(Error::Dma("late"))));
    assert!(matches!(w.begin_wait::<&str>(), Ok(None)));
    assert_eq!(w.try_take_buffer::<&str>().unwrap(), Some(vec![1]));
}

#[test]
fn finish_wait_with_full_pool_reports_too_many_buffers_first() {
    let mut w = writer();
    let bus = w.take_bus::<&str>().unwrap();
    w.transfer_started(1);
    let _fut = w.begin_wait::<&str>().unwrap();
    assert!(matches!(
        w.finish_wait(Err("late"), bus, vec![3]),
        Err(Error::TooManyBuffers)
    ));
    // The bus is idle again even so.
    assert!(matches!(w.begin_wait::<&str>(), Ok(None)));
}

#[test]
fn take_bus_when_transfer_in_flight_is_busy() {
    let mut w = writer();
    let _bus = w.take_bus::<()>().unwrap();
    w.transfer_started(4);
    assert!(matches!(w.take_bus::<()>(), Err(Error::BusIsBusy)));
    // The channel is left empty.
    assert!(matches!(w.begin_wait::<()>(), Err(Error::BusIsBusy)));
}

#[test]
fn refused_transfer_returns_bus_and_buffer_and_reports_error() {
    let mut w = writer();
    let buf = w.try_take_buffer::<&str>().unwrap().unwrap();
    let bus = w.take_bus::<&str>().unwrap();
    assert!(matches!(
        w.transfer_refused("too small", bus, buf),
        Err(Error::Dma("too small"))
    ));
    assert!(matches!(w.take_bus::<&str>(), Ok("bus")));
    assert_eq!(w.try_take_buffer::<&str>().unwrap(), Some(vec![1]));
}

#[test]
fn refused_transfer_with_full_pool_is_too_many_buffers() {
    let mut w = writer();
    let bus = w.take_bus::<&str>().unwrap();
    assert!(matches!(
        w.transfer_refused("x", bus, vec![3]),
        Err(Error::TooManyBuffers)
    ));
}
