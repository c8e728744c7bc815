use image_worker::dispatcher::{DispatchError, ImageStore, WorkerOutput};
use image_worker::messages::{Command, WorkerResponseMessage};

fn gamma_lut(gamma: f64) -> Vec<u8> {
    let mut lut = Vec::new();
    let mut v: usize = 0;
    while v < 256 {
        let x = (v as f64) / 255.0;
        let y = 255.0 * x.powf(gamma);
        let clamped = if y < 0.0 {
            0.0
        } else if y > 255.0 {
            255.0
        } else {
            y
        };
        lut.push(clamped.round() as u8);
        v += 1;
    }
    lut
}

fn sample_image() -> Vec<u8> {
    vec![9, 40, 200, 255, 0, 255, 17, 3, 128, 128, 128, 128, 77, 1, 250, 0]
}

fn must_emit(r: Result<Option<WorkerOutput>, DispatchError>) -> WorkerOutput {
    match r {
        Ok(Some(out)) => out,
        Ok(None) => panic!("expected an output, got silence"),
        Err(e) => panic!("expected an output, got {:?}", e),
    }
}

#[test]
fn empty_store_algorithm_commands_are_silent() {
    let mut store = ImageStore::new();
    let commands = vec![
        Command::Invert { enabled: true },
        Command::Invert { enabled: false },
        Command::Gamma { lut: gamma_lut(2.0) },
        Command::Gamma { lut: Vec::new() },
        Command::BoxBlur { kernel_size: 3 },
        Command::SobelEdgeDetector { threshold: 128 },
    ];
    for cmd in commands {
        match store.handle_command(cmd) {
            Ok(None) => {}
            Ok(Some(_)) => panic!("empty store must not emit a buffer"),
            Err(e) => panic!("empty store must not report {:?}", e),
        }
    }
}

#[test]
fn new_image_emits_nothing() {
    let mut store = ImageStore::new();
    let r = store.handle_command(Command::NewImage {
        image_data: sample_image(),
        width: 2,
        origin: (7, 8),
    });
    assert!(matches!(r, Ok(None)));
}

#[test]
fn invert_then_disable_restores_pristine_bytes() {
    let mut store = ImageStore::new();
    store
        .handle_command(Command::NewImage {
            image_data: sample_image(),
            width: 2,
            origin: (11, 22),
        })
        .unwrap();
    let inverted = must_emit(store.handle_command(Command::Invert { enabled: true }));
    assert_eq!(inverted.kind, WorkerResponseMessage::Invert);
    assert_eq!(inverted.width, 2);
    assert_eq!(inverted.origin, (11, 22));
    assert_ne!(inverted.image_data, sample_image());

    let restored = must_emit(store.handle_command(Command::Invert { enabled: false }));
    assert_eq!(restored.kind, WorkerResponseMessage::DisplayOriginalImage);
    assert_eq!(restored.image_data, sample_image());
    assert_eq!(restored.width, 2);
    assert_eq!(restored.origin, (11, 22));
}

#[test]
fn gamma_then_identity_gamma_restores_pristine_bytes() {
    let mut store = ImageStore::new();
    store
        .handle_command(Command::NewImage {
            image_data: sample_image(),
            width: 2,
            origin: (0, 0),
        })
        .unwrap();
    let darkened = must_emit(store.handle_command(Command::Gamma { lut: gamma_lut(2.0) }));
    assert_eq!(darkened.kind, WorkerResponseMessage::Gamma);

    let restored = must_emit(store.handle_command(Command::Gamma { lut: gamma_lut(1.0) }));
    assert_eq!(restored.kind, WorkerResponseMessage::Gamma);
    assert_eq!(restored.image_data, sample_image());
}

#[test]
fn white_square_scenario() {
    let white = vec![
        255, 255, 255, 255, 255, 255, 255, 255, 255, 255, 255, 255, 255, 255, 255, 255,
    ];
    let mut store = ImageStore::new();
    store
        .handle_command(Command::NewImage { image_data: white.clone(), width: 2, origin: (0, 0) })
        .unwrap();

    let inverted = must_emit(store.handle_command(Command::Invert { enabled: true }));
    assert_eq!(
        inverted.image_data,
        vec![0, 0, 0, 255, 0, 0, 0, 255, 0, 0, 0, 255, 0, 0, 0, 255]
    );

    let gamma = must_emit(store.handle_command(Command::Gamma { lut: gamma_lut(2.0) }));
    assert_eq!(gamma.image_data, white);

    let blurred = must_emit(store.handle_command(Command::BoxBlur { kernel_size: 3 }));
    assert_eq!(blurred.image_data, white);
}

#[test]
fn inconsistent_geometry_is_rejected_and_store_kept() {
    let mut store = ImageStore::new();
    store
        .handle_command(Command::NewImage {
            image_data: sample_image(),
            width: 2,
            origin: (1, 2),
        })
        .unwrap();
    // 15 bytes is not a whole number of width-2 rows
    let r = store.handle_command(Command::NewImage {
        image_data: vec![0; 15],
        width: 2,
        origin: (3, 4),
    });
    assert_eq!(r.unwrap_err(), DispatchError::InconsistentGeometry);

    // the previous image is still authoritative
    let restored = must_emit(store.handle_command(Command::Invert { enabled: false }));
    assert_eq!(restored.image_data, sample_image());
    assert_eq!(restored.origin, (1, 2));
}

#[test]
fn zero_width_with_bytes_is_rejected() {
    let mut store = ImageStore::new();
    let r = store.handle_command(Command::NewImage {
        image_data: vec![1, 2, 3, 4],
        width: 0,
        origin: (0, 0),
    });
    assert_eq!(r.unwrap_err(), DispatchError::InconsistentGeometry);
}

#[test]
fn short_gamma_table_is_rejected_on_loaded_store() {
    let mut store = ImageStore::new();
    store
        .handle_command(Command::NewImage {
            image_data: sample_image(),
            width: 2,
            origin: (0, 0),
        })
        .unwrap();
    let r = store.handle_command(Command::Gamma { lut: vec![0; 255] });
    assert_eq!(r.unwrap_err(), DispatchError::InvalidGammaTable);

    // the store is untouched
    let restored = must_emit(store.handle_command(Command::Invert { enabled: false }));
    assert_eq!(restored.image_data, sample_image());
}

#[test]
fn algorithm_commands_never_mutate_the_store() {
    let mut store = ImageStore::new();
    store
        .handle_command(Command::NewImage {
            image_data: sample_image(),
            width: 2,
            origin: (5, 6),
        })
        .unwrap();
    must_emit(store.handle_command(Command::BoxBlur { kernel_size: 5 }));
    must_emit(store.handle_command(Command::SobelEdgeDetector { threshold: 9 }));
    must_emit(store.handle_command(Command::Invert { enabled: true }));

    let restored = must_emit(store.handle_command(Command::Invert { enabled: false }));
    assert_eq!(restored.image_data, sample_image());
    assert_eq!(restored.width, 2);
    assert_eq!(restored.origin, (5, 6));
}

#[test]
fn replacing_the_image_replaces_all_provenance() {
    let mut store = ImageStore::new();
    store
        .handle_command(Command::NewImage {
            image_data: sample_image(),
            width: 2,
            origin: (5, 6),
        })
        .unwrap();
    store
        .handle_command(Command::NewImage {
            image_data: vec![1, 2, 3, 4],
            width: 1,
            origin: (9, 10),
        })
        .unwrap();
    let out = must_emit(store.handle_command(Command::Invert { enabled: false }));
    assert_eq!(out.image_data, vec![1, 2, 3, 4]);
    assert_eq!(out.width, 1);
    assert_eq!(out.origin, (9, 10));
}

#[test]
fn sobel_output_is_opaque_edge_map() {
    let mut store = ImageStore::new();
    store
        .handle_command(Command::NewImage {
            image_data: vec![0, 0, 0, 9, 0, 0, 1, 8, 255, 255, 255, 0],
            width: 3,
            origin: (0, 0),
        })
        .unwrap();
    let out = must_emit(store.handle_command(Command::SobelEdgeDetector { threshold: 128 }));
    assert_eq!(out.kind, WorkerResponseMessage::SobelEdgeDetector);
    assert_eq!(
        out.image_data,
        vec![0, 0, 0, 255, 255, 255, 255, 255, 255, 255, 255, 255]
    );
}
