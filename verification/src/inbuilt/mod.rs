pub mod event_loop;
