use jackstay::demo::{
    is_uniform, number, pattern, source_pace, source_step, AdapterSelection, Bgra, NumberError, OptionError, Options, SourcePace,
    SourceStep, SECOND,
};
use jackstay::local::Scope;

fn parse(args: &[&str]) -> Result<Options, OptionError> {
    Options::parse(&args.iter().map(|arg| arg.to_string()).collect())
}

#[test]
fn options_have_defaults() {
    let options = parse(&["--endpoint", "demo"]).unwrap();
    assert_eq!(options.endpoint, "demo");
    assert_eq!((options.width, options.height, options.fps, options.seconds), (480, 270, 60, 120));
    assert_eq!(options.scope, Scope::User);
    assert_eq!(options.adapter, AdapterSelection::Default);
}

#[test]
fn options_are_taken_in_order() {
    let options = parse(&[
        "--session-scope",
        "--endpoint",
        "demo",
        "--source",
        "window",
        "--adapter",
        "0x1F",
        "--size",
        "640x480",
        "--resize-every-ms",
        "250",
        "--fps",
        "0",
        "--clients",
        "+2",
    ])
    .unwrap();
    assert_eq!(options.scope, Scope::Session);
    assert!(options.window);
    assert_eq!(options.adapter, AdapterSelection::Luid(0x1f));
    assert_eq!((options.width, options.height, options.fps, options.clients), (640, 480, 1, 2));
    assert_eq!(options.size_at(249), (640, 480));
    assert_eq!(options.size_at(250), (960, 480));
    assert_eq!(options.size_at(500), (640, 480));
}

#[test]
fn options_say_what_is_wrong() {
    assert_eq!(parse(&[]).unwrap_err(), OptionError::NoEndpoint);
    assert_eq!(parse(&["--fps"]).unwrap_err().message(), "--fps needs a value");
    assert_eq!(parse(&["--what"]).unwrap_err().message(), "unknown argument --what");
    assert_eq!(parse(&["--source", "x"]).unwrap_err().message(), "unknown source x");
    assert_eq!(parse(&["--size", "640"]).unwrap_err(), OptionError::Size);
    assert_eq!(parse(&["--size", "640xx"]).unwrap_err(), OptionError::Number(NumberError::InvalidDigit));
    assert_eq!(parse(&["--size", "640x"]).unwrap_err().message(), "cannot parse integer from empty string");
    assert_eq!(parse(&["--size", "x?"]).unwrap_err(), OptionError::Number(NumberError::Empty));
    assert_eq!(parse(&["--fps", "-1"]).unwrap_err().message(), "invalid digit found in string");
    assert_eq!(
        parse(&["--clients", "4294967296"]).unwrap_err().message(),
        "number too large to fit in target type"
    );
    assert_eq!(parse(&["--adapter", "0x"]).unwrap_err(), OptionError::Number(NumberError::Empty));
}

#[test]
fn numbers_are_read_within_their_bounds() {
    assert_eq!(number("255", 10, 255), Ok(255));
    assert_eq!(number("18446744073709551615", 10, u64::MAX), Ok(u64::MAX));
    assert_eq!(number("fF", 16, u64::MAX), Ok(255));
    for (text, radix) in [("4294967296", 10), ("+", 10), ("", 10), ("1a", 10), ("+-5", 10), ("99999999999x", 10)] {
        let std = u32::from_str_radix(text, radix).unwrap_err();
        let ours = number(text, radix as u64, u32::MAX as u64).unwrap_err();
        assert_eq!(OptionError::Number(ours).message(), std.to_string());
    }
    for (text, radix) in [("+7", 10), ("007", 10), ("7fffffff", 16), ("4294967295", 10)] {
        let std = u32::from_str_radix(text, radix).unwrap();
        assert_eq!(number(text, radix as u64, u32::MAX as u64), Ok(std as u64));
    }
}

#[test]
fn patterns_show_their_frame_number() {
    let pixels = pattern(32, 20, 0x8001);
    assert_eq!(pixels.len(), 32 * 20 * 4);
    // Blocks of two pixels: an edge, then the bit.
    let at = |x: usize, y: usize| &pixels[(y * 32 + x) * 4..][..4];
    assert_eq!(at(0, 0), [0, 0, 0, 255]);
    assert_eq!(at(1, 0), [255, 255, 255, 255]);
    assert_eq!(at(3, 1), [48, 48, 48, 255]);
    assert_eq!(at(31, 0), [255, 255, 255, 255]);
    // The bar: four pixels on for every frame, two wide.
    assert_eq!(at(4, 10), [255, 255, 255, 255]);
    assert_eq!(at(5, 10), [255, 255, 255, 255]);
    assert_eq!(at(6, 10), [208, 63, 47, 255]);
}

#[test]
fn uniform_pictures_have_one_colour() {
    let red = Bgra { blue: 0, green: 0, red: 255, alpha: 255 };
    assert!(is_uniform(&vec![0, 0, 255, 255, 0, 0, 255, 255], red));
    assert!(!is_uniform(&vec![0, 0, 255, 255, 0, 1, 255, 255], red));
    assert!(is_uniform(&vec![0, 0, 255, 255, 9], red));
}

#[test]
fn sources_end_in_time_or_with_their_viewers() {
    let options =
        parse(&["--endpoint", "demo", "--seconds", "2", "--clients", "3", "--size", "640x480", "--resize-every-ms", "250"])
            .unwrap();
    let start = 5 * SECOND;
    assert_eq!(
        source_step(&options, start, start + 250_000_000, 2),
        SourceStep::Tick { width: 960, height: 480, elapsed: 250_000_000 }
    );
    assert_eq!(
        source_step(&options, start, start + 2 * SECOND - 1, 0),
        SourceStep::Tick { width: 960, height: 480, elapsed: 2 * SECOND - 1 }
    );
    assert_eq!(source_step(&options, start, start + 2 * SECOND, 0), SourceStep::End);
    assert_eq!(source_step(&options, start, start, 3), SourceStep::End);
    let open = parse(&["--endpoint", "demo"]).unwrap();
    assert!(matches!(source_step(&open, start, start, 1000), SourceStep::Tick { .. }));
}

#[test]
fn sources_keep_an_even_pace() {
    let options = parse(&["--endpoint", "demo", "--fps", "3"]).unwrap();
    assert_eq!(
        source_pace(&options, SECOND, SECOND),
        SourcePace::Sleep { next: 1_333_333_333, wait: 333_333_333 }
    );
    assert_eq!(
        source_pace(&options, SECOND, 1_333_333_333),
        SourcePace::Sleep { next: 1_333_333_333, wait: 0 }
    );
    assert_eq!(source_pace(&options, SECOND, 1_333_333_334), SourcePace::GoOn { next: 1_333_333_334 });
}
