use rust_tcp_bench::echo::async_framed_server_step;
use rust_tcp_bench::echo::async_server_step;
use rust_tcp_bench::echo::blocking_server_step;
use rust_tcp_bench::echo::mio_peer_step;
use rust_tcp_bench::echo::mio_write_step;
use rust_tcp_bench::echo::response_wait_step;
use rust_tcp_bench::echo::std_server_step;
use rust_tcp_bench::echo::tokio_server_step;
use rust_tcp_bench::echo::PeerStep;
use rust_tcp_bench::echo::ReadOutcome;
use rust_tcp_bench::echo::WaitStep;
use rust_tcp_bench::echo::WriteOutcome;
use rust_tcp_bench::echo::WriteStep;

#[test]
fn std_server_echoes_and_stops() {
    assert_eq!(std_server_step(ReadOutcome::Received(12)), PeerStep::Echo(12));
    assert_eq!(std_server_step(ReadOutcome::Closed), PeerStep::Close);
    assert_eq!(std_server_step(ReadOutcome::WouldBlock), PeerStep::Retry);
    assert_eq!(std_server_step(ReadOutcome::Interrupted), PeerStep::CloseWithError);
    assert_eq!(std_server_step(ReadOutcome::Failed), PeerStep::CloseWithError);
}

#[test]
fn blocking_server_keeps_reading_and_panics_on_errors() {
    assert_eq!(blocking_server_step(ReadOutcome::Received(4096)), PeerStep::Echo(4096));
    assert_eq!(blocking_server_step(ReadOutcome::Closed), PeerStep::Retry);
    assert_eq!(blocking_server_step(ReadOutcome::WouldBlock), PeerStep::Retry);
    assert_eq!(blocking_server_step(ReadOutcome::Interrupted), PeerStep::Abort);
    assert_eq!(blocking_server_step(ReadOutcome::Failed), PeerStep::Abort);
}

#[test]
fn tokio_server_closes_on_any_error() {
    assert_eq!(tokio_server_step(ReadOutcome::Received(1)), PeerStep::Echo(1));
    assert_eq!(tokio_server_step(ReadOutcome::Closed), PeerStep::Close);
    assert_eq!(tokio_server_step(ReadOutcome::WouldBlock), PeerStep::CloseWithError);
    assert_eq!(tokio_server_step(ReadOutcome::Interrupted), PeerStep::CloseWithError);
    assert_eq!(tokio_server_step(ReadOutcome::Failed), PeerStep::CloseWithError);
}

#[test]
fn async_servers_panic_on_errors() {
    assert_eq!(async_server_step(ReadOutcome::Received(3)), PeerStep::Echo(3));
    assert_eq!(async_server_step(ReadOutcome::Closed), PeerStep::Retry);
    assert_eq!(async_server_step(ReadOutcome::Failed), PeerStep::Abort);
    assert_eq!(async_framed_server_step(ReadOutcome::Received(3)), PeerStep::Echo(3));
    assert_eq!(async_framed_server_step(ReadOutcome::Closed), PeerStep::Close);
    assert_eq!(async_framed_server_step(ReadOutcome::Failed), PeerStep::Abort);
}

#[test]
fn mio_peer_retries_when_blocked_or_interrupted() {
    assert_eq!(mio_peer_step(ReadOutcome::Received(8192)), PeerStep::Echo(8192));
    assert_eq!(mio_peer_step(ReadOutcome::Closed), PeerStep::Close);
    assert_eq!(mio_peer_step(ReadOutcome::WouldBlock), PeerStep::Retry);
    assert_eq!(mio_peer_step(ReadOutcome::Interrupted), PeerStep::Retry);
    assert_eq!(mio_peer_step(ReadOutcome::Failed), PeerStep::CloseWithError);
}

#[test]
fn client_waits_for_any_response() {
    assert_eq!(response_wait_step(ReadOutcome::Received(1)), WaitStep::Done);
    assert_eq!(response_wait_step(ReadOutcome::Closed), WaitStep::Retry);
    assert_eq!(response_wait_step(ReadOutcome::WouldBlock), WaitStep::Retry);
    assert_eq!(response_wait_step(ReadOutcome::Interrupted), WaitStep::Abort);
    assert_eq!(response_wait_step(ReadOutcome::Failed), WaitStep::Abort);
}

#[test]
fn mio_write_needs_the_whole_buffer() {
    assert_eq!(mio_write_step(10, WriteOutcome::Written(10)), WriteStep::Done);
    assert_eq!(mio_write_step(10, WriteOutcome::Written(9)), WriteStep::ShortWrite);
    assert_eq!(mio_write_step(0, WriteOutcome::Written(0)), WriteStep::Done);
    assert_eq!(mio_write_step(10, WriteOutcome::WouldBlock), WriteStep::Done);
    assert_eq!(mio_write_step(10, WriteOutcome::Interrupted), WriteStep::Retry);
    assert_eq!(mio_write_step(10, WriteOutcome::Failed), WriteStep::Fail);
}
