use engine::engine::Engine;
use engine::engine::EngineState;
use engine::engine::Reaction;
use engine::error::Error;
use engine::event::EngineEvent;
use engine::event::Event;
use engine::event::KeyboardEvent;
use engine::event::MouseEvent;
use engine::event::WindowEvent;
use engine::scheduler::pool;
use engine::scheduler::pool::WorkerPool;
use engine::scheduler::worker::WorkerInstruction;
use engine::scheduler::worker::WorkerKind;
use engine::scheduler::Job;
use winit::keyboard::KeyCode;
use winit::keyboard::PhysicalKey;

fn new_engine() -> Engine {
    Engine::default(None)
}

#[test]
fn engine_run_correct() {
    let mut engine = new_engine();
    engine.run().expect("engine should be able to start");
    assert_eq!(engine.state(), EngineState::Running);
}

#[test]
fn engine_stop_correct() {
    let mut engine = new_engine();
    engine.run().unwrap();
    engine.shutdown().expect("engine should be able to shutdown");
    assert_eq!(engine.state(), EngineState::Stopped);
}

#[test]
fn lifecycle_happy_path() {
    let mut engine = new_engine();
    assert_eq!(engine.state(), EngineState::Stopped);
    assert_eq!(engine.run(), Ok(()));
    assert_eq!(engine.state(), EngineState::Running);
    assert_eq!(engine.shutdown(), Ok(()));
    assert_eq!(engine.state(), EngineState::Stopped);
}

#[test]
fn illegal_restart_is_refused() {
    let mut engine = new_engine();
    assert_eq!(engine.run(), Ok(()));
    assert_eq!(
        engine.run(),
        Err(Error::InvalidState(EngineState::Stopped, EngineState::Running))
    );
    assert_eq!(engine.state(), EngineState::Running);
}

#[test]
fn second_shutdown_is_refused() {
    let mut engine = new_engine();
    engine.run().unwrap();
    engine.shutdown().unwrap();
    assert_eq!(
        engine.shutdown(),
        Err(Error::InvalidState(EngineState::Running, EngineState::Stopped))
    );
    assert_eq!(engine.state(), EngineState::Stopped);
}

#[test]
fn shutdown_of_a_stopped_engine_is_refused() {
    let mut engine = new_engine();
    assert_eq!(
        engine.shutdown(),
        Err(Error::InvalidState(EngineState::Running, EngineState::Stopped))
    );
    assert_eq!(engine.state(), EngineState::Stopped);
}

#[test]
fn engine_can_run_again_after_shutdown() {
    let mut engine = new_engine();
    for _ in 0..3 {
        assert_eq!(engine.run(), Ok(()));
        assert_eq!(engine.state(), EngineState::Running);
        assert_eq!(engine.shutdown(), Ok(()));
        assert_eq!(engine.state(), EngineState::Stopped);
    }
}

#[test]
fn event_drain_ordering() {
    let mut engine = new_engine();
    let key = PhysicalKey::Code(KeyCode::Digit1);
    let first = Event::Keyboard(KeyboardEvent::Pressed(key));
    let second = Event::Keyboard(KeyboardEvent::Released(key));
    let third = Event::Mouse(MouseEvent::Moved(10, 20));
    let dispatcher = engine.dispatcher();
    dispatcher.send(first);
    dispatcher.send(second);
    dispatcher.send(third);

    assert_eq!(engine.require_event(), None);
    engine.step();
    assert_eq!(engine.require_event(), Some(first));
    assert_eq!(engine.require_event(), Some(second));
    assert_eq!(engine.require_event(), Some(third));
    assert_eq!(engine.require_event(), None);
}

#[test]
fn step_keeps_events_of_earlier_steps_in_front() {
    let mut engine = new_engine();
    let started = Event::Engine(EngineEvent::Started);
    let moved = Event::Mouse(MouseEvent::Moved(1, 2));
    engine.dispatch(started);
    engine.step();
    engine.dispatch(moved);
    engine.step();
    assert_eq!(engine.require_event(), Some(started));
    assert_eq!(engine.require_event(), Some(moved));
    assert_eq!(engine.require_event(), None);
}

#[test]
fn step_does_not_touch_the_lifecycle() {
    let mut engine = new_engine();
    engine.dispatch(Event::Engine(EngineEvent::Stopped));
    engine.step();
    assert_eq!(engine.state(), EngineState::Stopped);
    engine.run().unwrap();
    engine.dispatch(Event::Engine(EngineEvent::Shutdown));
    engine.step();
    assert_eq!(engine.state(), EngineState::Running);
}

#[test]
fn handle_event_takes_one_event_at_a_time() {
    let mut engine = new_engine();
    assert!(!engine.handle_event());
    engine.dispatch(Event::Window(WindowEvent::CloseRequested));
    engine.dispatch(Event::Window(WindowEvent::RedrawRequested));
    assert!(engine.handle_event());
    assert_eq!(
        engine.require_event(),
        Some(Event::Window(WindowEvent::CloseRequested))
    );
    assert_eq!(engine.require_event(), None);
    assert!(engine.handle_event());
    assert!(!engine.handle_event());
    assert_eq!(
        engine.require_event(),
        Some(Event::Window(WindowEvent::RedrawRequested))
    );
}

#[test]
fn reactions_follow_the_events() {
    let mut engine = new_engine();
    let key = Event::Keyboard(KeyboardEvent::Pressed(PhysicalKey::Code(KeyCode::KeyA)));
    let window = Event::Window(WindowEvent::RedrawRequested);
    engine.dispatch(Event::Engine(EngineEvent::Started));
    engine.dispatch(Event::Mouse(MouseEvent::Moved(3, 4)));
    engine.dispatch(key);
    engine.dispatch(Event::Engine(EngineEvent::Shutdown));
    engine.dispatch(window);
    engine.dispatch(Event::Engine(EngineEvent::Stopped));
    engine.step();

    assert_eq!(engine.require_reaction(), Some(Reaction::Started));
    assert_eq!(engine.require_reaction(), Some(Reaction::Unhandled(key)));
    assert_eq!(engine.require_reaction(), Some(Reaction::Shutdown));
    assert_eq!(engine.require_reaction(), Some(Reaction::Unhandled(window)));
    assert_eq!(engine.require_reaction(), Some(Reaction::Stopped));
    assert_eq!(engine.require_reaction(), None);
}

#[test]
fn react_maps_each_kind_of_event() {
    let button = winit::event::MouseButton::Left;
    assert_eq!(
        Engine::react(&Event::Engine(EngineEvent::Started)),
        Some(Reaction::Started)
    );
    assert_eq!(
        Engine::react(&Event::Engine(EngineEvent::Shutdown)),
        Some(Reaction::Shutdown)
    );
    assert_eq!(
        Engine::react(&Event::Engine(EngineEvent::Stopped)),
        Some(Reaction::Stopped)
    );
    assert_eq!(Engine::react(&Event::Mouse(MouseEvent::Pressed(button))), None);
    assert_eq!(Engine::react(&Event::Mouse(MouseEvent::Released(button))), None);
    assert_eq!(Engine::react(&Event::Mouse(MouseEvent::Moved(0, 0))), None);
    let close = Event::Window(WindowEvent::CloseRequested);
    assert_eq!(Engine::react(&close), Some(Reaction::Unhandled(close)));
}

#[test]
fn refused_instruction_leaves_a_reaction_and_the_state() {
    let mut engine = new_engine();
    engine.run().unwrap();
    engine.instruct(WorkerInstruction::Specialize(
        WorkerKind::Generic(7),
        Job::new(|| {}),
    ));
    assert_eq!(
        engine.require_reaction(),
        Some(Reaction::InstructionFailed(
            pool::Error::CannotSpecializeIntoGeneric
        ))
    );
    assert_eq!(engine.require_reaction(), None);
    assert_eq!(engine.state(), EngineState::Running);
}

#[test]
fn accepted_instruction_leaves_no_reaction() {
    let mut engine = new_engine();
    engine.instruct(WorkerInstruction::Execute(Job::new(|| {})));
    engine.instruct(WorkerInstruction::Specialize(
        WorkerKind::Networking,
        Job::new(|| {}),
    ));
    assert_eq!(engine.require_reaction(), None);
    engine.instruct(WorkerInstruction::Specialize(
        WorkerKind::Networking,
        Job::new(|| {}),
    ));
    assert_eq!(
        engine.require_reaction(),
        Some(Reaction::InstructionFailed(
            pool::Error::SpecializationAlreadyExists(WorkerKind::Networking)
        ))
    );
}

#[test]
fn engine_hands_out_the_runtimes_of_its_pool() {
    let mut engine = Engine::new(WorkerPool::new(3));
    let runtimes = engine.take_unstarted();
    assert_eq!(runtimes.len(), 3);
    for (slot, runtime) in runtimes.iter().enumerate() {
        assert_eq!(runtime.id(), slot);
    }
    assert_eq!(engine.take_unstarted().len(), 0);
}

#[test]
fn start_and_stop_do_nothing_outside_run_and_shutdown() {
    let mut engine = new_engine();
    engine.start();
    assert_eq!(engine.state(), EngineState::Stopped);
    engine.stop();
    assert_eq!(engine.state(), EngineState::Stopped);
    engine.run().unwrap();
    engine.start();
    assert_eq!(engine.state(), EngineState::Running);
    engine.stop();
    assert_eq!(engine.state(), EngineState::Running);
    assert_eq!(engine.shutdown(), Ok(()));
    assert_eq!(engine.state(), EngineState::Stopped);
}

#[test]
fn an_empty_bus_leaves_no_reaction() {
    let mut engine = new_engine();
    engine.step();
    assert!(!engine.handle_event());
    assert_eq!(engine.require_reaction(), None);
    assert_eq!(engine.require_event(), None);
}

#[test]
fn default_engine_pool_is_never_empty() {
    let mut engine = Engine::default(Some(1));
    assert_eq!(engine.take_unstarted().len(), 1);
    let mut engine = Engine::default(Some(4));
    assert_eq!(engine.take_unstarted().len(), 3);
}
