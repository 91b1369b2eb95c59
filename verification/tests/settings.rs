use raytracer::{
    Settings, DEFAULT_AA_SAMPLES, DEFAULT_DEPTH_LIMIT, DEFAULT_HEIGHT, DEFAULT_THREADS,
    DEFAULT_WIDTH,
};

#[test]
fn defaults() {
    let s = Settings::new("test.ppm");
    assert_eq!(s.width, 640);
    assert_eq!(s.height, 480);
    assert_eq!(s.depth_limit, 50);
    assert_eq!(s.aa_samples, 1);
    assert_eq!(s.threads, 1);
    assert_eq!(s.fname, "test.ppm");
    assert!(s.is_valid());
}

#[test]
fn default_constants() {
    assert_eq!(DEFAULT_WIDTH, 640);
    assert_eq!(DEFAULT_HEIGHT, 480);
    assert_eq!(DEFAULT_DEPTH_LIMIT, 50);
    assert_eq!(DEFAULT_AA_SAMPLES, 1);
    assert_eq!(DEFAULT_THREADS, 1);
}

#[test]
fn setters_change_one_field_each() {
    let s = Settings::new("out.ppm").width(320);
    assert_eq!((s.width, s.height, s.depth_limit, s.aa_samples, s.threads), (320, 480, 50, 1, 1));
    let s = s.height(200);
    assert_eq!((s.width, s.height, s.depth_limit, s.aa_samples, s.threads), (320, 200, 50, 1, 1));
    let s = s.aa_samples(25);
    assert_eq!((s.width, s.height, s.depth_limit, s.aa_samples, s.threads), (320, 200, 50, 25, 1));
    let s = s.depth_limit(120);
    assert_eq!((s.width, s.height, s.depth_limit, s.aa_samples, s.threads), (320, 200, 120, 25, 1));
    let s = s.threads(8);
    assert_eq!((s.width, s.height, s.depth_limit, s.aa_samples, s.threads), (320, 200, 120, 25, 8));
    assert_eq!(s.fname, "out.ppm");
}

#[test]
fn chained_configuration() {
    let s = Settings::new("test.ppm").width(640).height(480).aa_samples(25).depth_limit(50);
    assert_eq!(s.width, 640);
    assert_eq!(s.height, 480);
    assert_eq!(s.aa_samples, 25);
    assert_eq!(s.depth_limit, 50);
    assert_eq!(s.threads, 1);
}

#[test]
fn a_picture_needs_a_column_and_a_row() {
    assert!(!Settings::new("a").width(0).is_valid());
    assert!(!Settings::new("a").height(0).is_valid());
    assert!(Settings::new("a").width(1).height(1).is_valid());
}

#[test]
fn no_samples_means_one_plain_sample() {
    let s = Settings::new("a").aa_samples(0);
    assert_eq!(s.sample_count(), 1);
    assert!(!s.jittered());
}

#[test]
fn samples_are_jittered() {
    let s = Settings::new("a").aa_samples(25);
    assert_eq!(s.sample_count(), 25);
    assert!(s.jittered());
    let s = Settings::new("a");
    assert_eq!(s.sample_count(), 1);
    assert!(s.jittered());
}
