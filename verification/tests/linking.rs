use opengl_test::shaders::{linking_error, LinkEvent, LinkStep, ProgramLinker, ShaderError};

/// Feeds `events` to a fresh linker over `shaders`; returns every step issued,
/// the first (create) one included.
fn drive(shaders: Vec<u32>, events: Vec<LinkEvent>) -> Vec<LinkStep> {
    let (mut linker, first) = ProgramLinker::new(shaders);
    let mut steps = vec![first];
    for event in events {
        assert!(linker.accepts(&event));
        steps.push(linker.step(event));
    }
    steps
}

#[test]
fn log_in_utf8_becomes_linking_error() {
    let err = linking_error(b"error: undefined varying".to_vec());
    assert_eq!(err, ShaderError::LinkingError("error: undefined varying".to_string()));
}

#[test]
fn log_with_multibyte_text_is_kept() {
    let err = linking_error("fehler: ü".as_bytes().to_vec());
    assert_eq!(err, ShaderError::LinkingError("fehler: ü".to_string()));
}

#[test]
fn empty_log_gives_empty_message() {
    assert_eq!(linking_error(Vec::new()), ShaderError::LinkingError(String::new()));
}

#[test]
fn log_not_in_utf8_becomes_other_error() {
    assert_eq!(linking_error(vec![0x61, 0xff, 0xfe]), ShaderError::OtherError);
    assert_eq!(linking_error(vec![0xc3]), ShaderError::OtherError);
}

#[test]
fn from_utf8_error_is_other_error() {
    let e = String::from_utf8(vec![0x80]).unwrap_err();
    assert_eq!(ShaderError::from(e), ShaderError::OtherError);
}

#[test]
fn successful_link_attaches_every_shader_in_order() {
    let steps = drive(
        vec![11, 12, 13],
        vec![
            LinkEvent::ProgramCreated(7),
            LinkEvent::ShaderAttached,
            LinkEvent::ShaderAttached,
            LinkEvent::ShaderAttached,
            LinkEvent::ProgramLinked,
            LinkEvent::LinkStatus(1),
        ],
    );
    assert_eq!(
        steps,
        vec![
            LinkStep::CreateProgram,
            LinkStep::AttachShader { program: 7, shader: 11 },
            LinkStep::AttachShader { program: 7, shader: 12 },
            LinkStep::AttachShader { program: 7, shader: 13 },
            LinkStep::LinkProgram { program: 7 },
            LinkStep::QueryLinkStatus { program: 7 },
            LinkStep::Linked { program: 7 },
        ]
    );
}

#[test]
fn link_without_shaders_links_at_once() {
    let steps = drive(
        vec![],
        vec![LinkEvent::ProgramCreated(3), LinkEvent::ProgramLinked, LinkEvent::LinkStatus(1)],
    );
    assert_eq!(
        steps,
        vec![
            LinkStep::CreateProgram,
            LinkStep::LinkProgram { program: 3 },
            LinkStep::QueryLinkStatus { program: 3 },
            LinkStep::Linked { program: 3 },
        ]
    );
}

#[test]
fn failed_link_reads_log_and_releases_program() {
    let steps = drive(
        vec![21],
        vec![
            LinkEvent::ProgramCreated(9),
            LinkEvent::ShaderAttached,
            LinkEvent::ProgramLinked,
            LinkEvent::LinkStatus(0),
            LinkEvent::InfoLogLength(8),
            LinkEvent::InfoLog { bytes: b"bad link".to_vec(), written: 8 },
        ],
    );
    assert_eq!(
        steps,
        vec![
            LinkStep::CreateProgram,
            LinkStep::AttachShader { program: 9, shader: 21 },
            LinkStep::LinkProgram { program: 9 },
            LinkStep::QueryLinkStatus { program: 9 },
            LinkStep::QueryInfoLogLength { program: 9 },
            LinkStep::ReadInfoLog { program: 9, capacity: 8 },
            LinkStep::Failed {
                program: 9,
                error: ShaderError::LinkingError("bad link".to_string()),
            },
        ]
    );
}

#[test]
fn failed_link_keeps_only_written_part_of_log() {
    let steps = drive(
        vec![1, 2],
        vec![
            LinkEvent::ProgramCreated(4),
            LinkEvent::ShaderAttached,
            LinkEvent::ShaderAttached,
            LinkEvent::ProgramLinked,
            LinkEvent::LinkStatus(0),
            LinkEvent::InfoLogLength(6),
            LinkEvent::InfoLog { bytes: vec![b'o', b'o', b'p', b's', 0, 0xff], written: 4 },
        ],
    );
    assert_eq!(
        steps.last(),
        Some(&LinkStep::Failed { program: 4, error: ShaderError::LinkingError("oops".to_string()) })
    );
}

#[test]
fn failed_link_with_unreadable_log_is_other_error() {
    let steps = drive(
        vec![5],
        vec![
            LinkEvent::ProgramCreated(2),
            LinkEvent::ShaderAttached,
            LinkEvent::ProgramLinked,
            LinkEvent::LinkStatus(0),
            LinkEvent::InfoLogLength(2),
            LinkEvent::InfoLog { bytes: vec![0xfe, 0xff], written: 2 },
        ],
    );
    assert_eq!(steps.last(), Some(&LinkStep::Failed { program: 2, error: ShaderError::OtherError }));
}

#[test]
fn only_status_one_counts_as_linked() {
    let (mut linker, _) = ProgramLinker::new(vec![]);
    linker.step(LinkEvent::ProgramCreated(1));
    linker.step(LinkEvent::ProgramLinked);
    assert_eq!(linker.step(LinkEvent::LinkStatus(2)), LinkStep::QueryInfoLogLength { program: 1 });

    let (mut linker, _) = ProgramLinker::new(vec![]);
    linker.step(LinkEvent::ProgramCreated(1));
    linker.step(LinkEvent::ProgramLinked);
    assert_eq!(linker.step(LinkEvent::LinkStatus(-1)), LinkStep::QueryInfoLogLength { program: 1 });
}

#[test]
fn empty_log_length_reads_empty_log() {
    let steps = drive(
        vec![],
        vec![
            LinkEvent::ProgramCreated(6),
            LinkEvent::ProgramLinked,
            LinkEvent::LinkStatus(0),
            LinkEvent::InfoLogLength(0),
            LinkEvent::InfoLog { bytes: vec![], written: 0 },
        ],
    );
    assert_eq!(
        &steps[4..],
        &[
            LinkStep::ReadInfoLog { program: 6, capacity: 0 },
            LinkStep::Failed { program: 6, error: ShaderError::LinkingError(String::new()) },
        ]
    );
}

#[test]
fn answers_out_of_turn_are_refused() {
    let (mut linker, _) = ProgramLinker::new(vec![8]);
    assert!(!linker.accepts(&LinkEvent::ShaderAttached));
    assert!(!linker.accepts(&LinkEvent::LinkStatus(1)));
    assert!(linker.accepts(&LinkEvent::ProgramCreated(1)));
    linker.step(LinkEvent::ProgramCreated(1));
    assert!(!linker.accepts(&LinkEvent::ProgramLinked));
    assert!(linker.accepts(&LinkEvent::ShaderAttached));
}

#[test]
fn negative_log_length_is_refused() {
    let (mut linker, _) = ProgramLinker::new(vec![]);
    linker.step(LinkEvent::ProgramCreated(1));
    linker.step(LinkEvent::ProgramLinked);
    linker.step(LinkEvent::LinkStatus(0));
    assert!(!linker.accepts(&LinkEvent::InfoLogLength(-1)));
    assert!(linker.accepts(&LinkEvent::InfoLogLength(0)));
}

#[test]
fn written_length_outside_buffer_is_refused() {
    let (mut linker, _) = ProgramLinker::new(vec![]);
    linker.step(LinkEvent::ProgramCreated(1));
    linker.step(LinkEvent::ProgramLinked);
    linker.step(LinkEvent::LinkStatus(0));
    linker.step(LinkEvent::InfoLogLength(3));
    assert!(!linker.accepts(&LinkEvent::InfoLog { bytes: vec![1, 2, 3], written: 4 }));
    assert!(!linker.accepts(&LinkEvent::InfoLog { bytes: vec![1, 2, 3], written: -1 }));
    assert!(linker.accepts(&LinkEvent::InfoLog { bytes: vec![1, 2, 3], written: 3 }));
}

#[test]
fn finished_build_accepts_nothing() {
    let (mut linker, _) = ProgramLinker::new(vec![]);
    linker.step(LinkEvent::ProgramCreated(1));
    linker.step(LinkEvent::ProgramLinked);
    assert_eq!(linker.step(LinkEvent::LinkStatus(1)), LinkStep::Linked { program: 1 });
    assert!(!linker.accepts(&LinkEvent::ProgramCreated(2)));
    assert!(!linker.accepts(&LinkEvent::LinkStatus(1)));
    assert!(!linker.accepts(&LinkEvent::InfoLog { bytes: vec![], written: 0 }));
}
