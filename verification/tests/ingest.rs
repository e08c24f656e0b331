use canvas_replay::date::{
    date_components_to_timestamp, date_to_timestamp, read_date, timestamp_from_parts,
};
use canvas_replay::error::MalformedEvent;
use canvas_replay::event::{PlacementEvent, Shape, UNSET};
use canvas_replay::record::{find_all, read_color, read_coords, read_record, ActorTable};
use canvas_replay::text::{chars_of, digit_of, parse_hex_u32, parse_i32, parse_unsigned};

fn fields(items: &[&str]) -> Vec<String> {
    items.iter().map(|s| s.to_string()).collect()
}

#[test]
fn chars_of_gives_every_character() {
    assert_eq!(chars_of(""), Vec::<char>::new());
    assert_eq!(chars_of("a,b"), vec!['a', ',', 'b']);
    assert_eq!(chars_of("é→1"), vec!['é', '→', '1']);
}

#[test]
fn digit_of_knows_digits_and_letters() {
    assert_eq!(digit_of('0'), 0);
    assert_eq!(digit_of('9'), 9);
    assert_eq!(digit_of('a'), 10);
    assert_eq!(digit_of('F'), 15);
    assert_eq!(digit_of('z'), 35);
    assert_eq!(digit_of('Z'), 35);
    assert_eq!(digit_of(' '), 36);
    assert_eq!(digit_of('-'), 36);
    assert_eq!(digit_of('٣'), 36);
}

#[test]
fn parse_unsigned_reads_a_range_of_the_text() {
    let chars = chars_of("ab1234cd");
    assert_eq!(parse_unsigned(&chars, 2, 6, 10, 9999), Some(1234));
    assert_eq!(parse_unsigned(&chars, 2, 6, 10, 1233), None);
    assert_eq!(parse_unsigned(&chars, 2, 6, 10, 1234), Some(1234));
    assert_eq!(parse_unsigned(&chars, 2, 7, 10, 99999), None);
    assert_eq!(parse_unsigned(&chars, 2, 7, 16, u32::MAX), Some(0x1234c));
    assert_eq!(parse_unsigned(&chars, 0, 8, 16, u32::MAX), Some(0xab1234cd));
    assert_eq!(parse_unsigned(&chars, 3, 3, 10, 9999), None);
    assert_eq!(parse_unsigned(&chars_of("zz"), 0, 2, 36, u32::MAX), Some(35 * 36 + 35));
    assert_eq!(parse_unsigned(&chars_of("102"), 0, 3, 2, u32::MAX), None);
}

#[test]
fn parse_i32_agrees_with_the_standard_library() {
    for text in [
        "0", "7", "-7", "+7", "007", "-007", "2147483647", "-2147483648", "2147483648",
        "-2147483649", "+2147483647", "99999999999999999999", "", "-", "+", "--1", "+-1", "-+1",
        "1 ", " 1", "1_000", "0x10", "12a", "a", "１２", "1.5", "-0", "+0", "00000000000000000001",
    ] {
        let chars = chars_of(text);
        assert_eq!(
            parse_i32(&chars, 0, chars.len()),
            i32::from_str_radix(text, 10).ok(),
            "{:?}",
            text
        );
    }
}

#[test]
fn parse_hex_u32_agrees_with_the_standard_library() {
    for text in [
        "0", "ff", "FF", "Ff", "FF4500", "ffffffff", "FFFFFFFF", "100000000", "+ff", "-ff", "-0",
        "", "+", "g", "0x10", "12 ", " 12", "00000000000ff", "deadbeef", "DEADBEEF", "fffffffff",
    ] {
        let chars = chars_of(text);
        assert_eq!(
            parse_hex_u32(&chars, 0, chars.len()),
            u32::from_str_radix(text, 16).ok(),
            "{:?}",
            text
        );
    }
}

#[test]
fn read_date_takes_the_fields_of_a_full_date() {
    assert_eq!(read_date("2023-07-20 13:00:26.088 UTC"), Ok([2023, 7, 20, 13, 0, 26, 88]));
    assert_eq!(read_date("2023-07-25 21:59:59.999 UTC"), Ok([2023, 7, 25, 21, 59, 59, 999]));
}

#[test]
fn read_date_takes_missing_fields_as_zero() {
    assert_eq!(read_date("2023-07-20 13:00 UTC"), Ok([2023, 7, 20, 13, 0, 0, 0]));
    assert_eq!(read_date("2023-07-20 13:00:26 UTC"), Ok([2023, 7, 20, 13, 0, 26, 0]));
    assert_eq!(read_date("--------"), Ok([0, 0, 0, 0, 0, 0, 0]));
    assert_eq!(read_date("1 2 3 4 5 6 7 x"), Ok([1, 2, 3, 4, 5, 6, 7]));
}

#[test]
fn read_date_takes_any_character_but_a_digit_to_close_a_field() {
    assert_eq!(read_date("2023x07y20z13é00→26.5 !"), Ok([2023, 7, 20, 13, 0, 26, 5]));
}

#[test]
fn read_date_ignores_what_follows_the_date() {
    assert_eq!(
        read_date("2023-07-20 13:00:26.088 UTC and 12345678 more"),
        Ok([2023, 7, 20, 13, 0, 26, 88])
    );
}

#[test]
fn read_date_rejects_a_text_that_ends_too_early() {
    for text in ["", "2023", "2023-07-20", "2023-07-20 13:00:26.088", "2023-07-20 13:00:26.088 ", "-------"] {
        assert_eq!(read_date(text), Err(MalformedEvent::BadDate), "{:?}", text);
    }
}

#[test]
fn read_date_rejects_a_field_with_too_many_digits() {
    for text in [
        "20231-07-20 13:00:26.088 UTC",
        "2023-0007-20 13:00:26.088 UTC",
        "2023-07-20 13:00:26.0888 UTC",
        "2023-07-20 13:00:26.088 1UTC",
        "12345",
    ] {
        assert_eq!(read_date(text), Err(MalformedEvent::BadDate), "{:?}", text);
    }
    assert_eq!(read_date("9999-999-999 999:999:999.999 U"), Ok([9999, 999, 999, 999, 999, 999, 999]));
}

#[test]
fn date_components_to_timestamp_counts_from_the_epoch() {
    assert_eq!(date_components_to_timestamp([1970, 1, 1, 0, 0, 0, 0]), Ok(0));
    assert_eq!(date_components_to_timestamp([1970, 1, 1, 0, 0, 1, 444]), Ok(1_444));
    assert_eq!(date_components_to_timestamp([2001, 9, 9, 1, 46, 40, 555]), Ok(1_000_000_000_555));
    assert_eq!(date_components_to_timestamp([2023, 7, 20, 13, 0, 26, 88]), Ok(1_689_858_026_088));
    assert_eq!(date_components_to_timestamp([1969, 12, 31, 23, 59, 59, 0]), Ok(-1_000));
}

#[test]
fn date_components_to_timestamp_adds_the_last_field_as_it_is() {
    assert_eq!(date_components_to_timestamp([1970, 1, 1, 0, 0, 0, 5_000]), Ok(5_000));
    assert_eq!(
        date_components_to_timestamp([1970, 1, 1, 0, 0, 0, u32::MAX]),
        Ok(u32::MAX as i64)
    );
}

#[test]
fn date_components_to_timestamp_rejects_what_the_calendar_lacks() {
    for c in [
        [2023, 2, 29, 0, 0, 0, 0],
        [2023, 13, 1, 0, 0, 0, 0],
        [2023, 0, 1, 0, 0, 0, 0],
        [2023, 1, 0, 0, 0, 0, 0],
        [2023, 1, 1, 24, 0, 0, 0],
        [2023, 1, 1, 0, 60, 0, 0],
        [2023, 1, 1, 0, 0, 60, 0],
        [0, 0, 0, 0, 0, 0, 0],
        [u32::MAX, 1, 1, 0, 0, 0, 0],
        [0x8000_0000, 1, 1, 0, 0, 0, 0],
        [0x7fff_ffff, 1, 1, 0, 0, 0, 0],
    ] {
        assert_eq!(date_components_to_timestamp(c), Err(MalformedEvent::NoSuchInstant), "{:?}", c);
    }
    assert_eq!(date_components_to_timestamp([2024, 2, 29, 0, 0, 0, 0]), Ok(1_709_164_800_000));
}

#[test]
fn timestamp_from_parts_adds_or_fails() {
    assert_eq!(timestamp_from_parts(Some(1_000), 88), Ok(1_088));
    assert_eq!(timestamp_from_parts(Some(-1_000), 88), Ok(-912));
    assert_eq!(timestamp_from_parts(Some(i64::MAX - 88), 88), Ok(i64::MAX));
    assert_eq!(timestamp_from_parts(Some(i64::MAX - 87), 88), Err(MalformedEvent::NoSuchInstant));
    assert_eq!(timestamp_from_parts(Some(i64::MIN), u32::MAX), Ok(i64::MIN + u32::MAX as i64));
    assert_eq!(timestamp_from_parts(None, 0), Err(MalformedEvent::NoSuchInstant));
}

#[test]
fn date_to_timestamp_reads_the_dates_of_a_render() {
    assert_eq!(date_to_timestamp("2023-07-20 13:00 UTC"), Ok(1_689_858_000_000));
    assert_eq!(date_to_timestamp("2023-07-25 22:00 UTC"), Ok(1_690_322_400_000));
    assert_eq!(date_to_timestamp("2023-07-20 13:00:26.088 UTC"), Ok(1_689_858_026_088));
}

#[test]
fn date_to_timestamp_tells_a_bad_text_from_a_bad_day() {
    assert_eq!(date_to_timestamp("2023-07-20"), Err(MalformedEvent::BadDate));
    assert_eq!(date_to_timestamp("soon"), Err(MalformedEvent::BadDate));
    assert_eq!(date_to_timestamp("2023-02-30 13:00 UTC"), Err(MalformedEvent::NoSuchInstant));
    assert_eq!(date_to_timestamp("yesterday at noon, or so"), Err(MalformedEvent::NoSuchInstant));
}

#[test]
fn find_all_lists_the_places_in_order() {
    assert_eq!(find_all(&chars_of("1,2,3,4"), ','), vec![1, 3, 5]);
    assert_eq!(find_all(&chars_of(",,"), ','), vec![0, 1]);
    assert_eq!(find_all(&chars_of("no comma"), ','), Vec::<usize>::new());
    assert_eq!(find_all(&chars_of("é:→:"), ':'), vec![1, 3]);
}

#[test]
fn read_coords_reads_a_point() {
    assert_eq!(read_coords("424,336"), Ok((424, 336, UNSET, UNSET)));
    assert_eq!(read_coords("-1500,-1000"), Ok((-1500, -1000, UNSET, UNSET)));
    assert_eq!(read_coords("+3,0"), Ok((3, 0, UNSET, UNSET)));
}

#[test]
fn read_coords_reads_a_circle() {
    assert_eq!(read_coords("{X: 424, Y: 336, R: 3}"), Ok((424, 336, 3, UNSET)));
    assert_eq!(read_coords("{X: -424, Y: -336, R: 10}"), Ok((-424, -336, 10, UNSET)));
    assert_eq!(read_coords("a: 1,b: 2,c: 3)"), Ok((1, 2, 3, UNSET)));
}

#[test]
fn read_coords_finds_the_numbers_of_a_circle_by_their_places() {
    // each number starts two places after its colon, whatever stands between
    assert_eq!(read_coords("{X:424, Y: 336, R: 3}"), Ok((24, 336, 3, UNSET)));
    assert_eq!(read_coords("{X:+424, Y:-336, R:x3}"), Ok((424, 336, 3, UNSET)));
}

#[test]
fn read_coords_reads_a_rectangle() {
    assert_eq!(read_coords("1,2,3,4"), Ok((1, 2, 3, 4)));
    assert_eq!(read_coords("-1500,-1000,1499,999"), Ok((-1500, -1000, 1499, 999)));
}

#[test]
fn read_coords_gives_shapes_that_decode() {
    let event = |c: (i32, i32, i32, i32)| PlacementEvent {
        timestamp: 0,
        actor_id: 0,
        x: c.0,
        y: c.1,
        aux1: c.2,
        aux2: c.3,
        color: 0,
    };
    assert_eq!(event(read_coords("4,5").unwrap()).decode(), Ok(Shape::Point { x: 4, y: 5 }));
    assert_eq!(
        event(read_coords("{X: 4, Y: 5, R: 6}").unwrap()).decode(),
        Ok(Shape::Circle { cx: 4, cy: 5, radius: 6 })
    );
    assert_eq!(
        event(read_coords("4,5,6,7").unwrap()).decode(),
        Ok(Shape::Rectangle { ax: 4, ay: 5, bx: 6, by: 7 })
    );
}

#[test]
fn read_coords_rejects_other_layouts() {
    for text in [
        "",
        "424",
        "1,2,3,4,5",
        "424,",
        ",336",
        "424, 336",
        "4x4,336",
        "2147483648,0",
        "1,2,3,",
        "1,,3,4",
        "{X: 424, Y: 336, R: 3",
        "{X 424, Y 336, R 3}",
        "{X: 424, Y: 336, R 3}",
        "{X: 424, Y: 336, R: }",
        "{X: 424, Y: 336, R:}",
        "1,2:,3:,:",
        "{X: 4.5, Y: 336, R: 3}",
    ] {
        assert_eq!(read_coords(text), Err(MalformedEvent::BadCoordinates), "{:?}", text);
    }
}

#[test]
fn read_color_reads_six_hex_digits_after_the_mark() {
    assert_eq!(read_color("#FF4500"), Ok(0xff4500));
    assert_eq!(read_color("#000000"), Ok(0));
    assert_eq!(read_color("#ffffff"), Ok(0xffffff));
    assert_eq!(read_color("#FFFFFFFF"), Ok(0xffffffff));
    assert_eq!(read_color("#1"), Ok(1));
}

#[test]
fn read_color_passes_over_the_first_character_unseen() {
    assert_eq!(read_color("xFF4500"), Ok(0xff4500));
    assert_eq!(read_color("1FF4500"), Ok(0xff4500));
}

#[test]
fn read_color_rejects_what_is_not_a_hex_number() {
    for text in ["", "#", "#GG0000", "#FF 4500", "#100000000", "#-1", "éFF4500", "##FF4500"] {
        assert_eq!(read_color(text), Err(MalformedEvent::BadColor), "{:?}", text);
    }
}

#[test]
fn actors_are_numbered_from_one_in_the_order_seen() {
    let mut actors = ActorTable::new();
    assert_eq!(actors.count(), 0);
    assert_eq!(actors.intern("alice"), Ok(1));
    assert_eq!(actors.intern("bob"), Ok(2));
    assert_eq!(actors.intern("alice"), Ok(1));
    assert_eq!(actors.intern(""), Ok(3));
    assert_eq!(actors.intern("bob"), Ok(2));
    assert_eq!(actors.count(), 3);
    let mut roomy = ActorTable::with_capacity(500_000);
    assert_eq!(roomy.intern("carol"), Ok(1));
}

#[test]
fn actors_run_out_after_the_last_identifier() {
    let mut actors = ActorTable::starting_after(i64::MAX - 1);
    assert_eq!(actors.intern("alice"), Ok(i64::MAX));
    assert_eq!(actors.intern("bob"), Err(MalformedEvent::TooManyActors));
    assert_eq!(actors.intern("alice"), Ok(i64::MAX));
    assert_eq!(actors.count(), i64::MAX);
    assert_eq!(ActorTable::starting_after(-5).count(), 0);
}

#[test]
fn read_record_reads_a_point() {
    let mut actors = ActorTable::new();
    let got = read_record(
        &fields(&["2023-07-20 13:00:26.088 UTC", "someone", "424,336", "#FF4500"]),
        &mut actors,
    );
    assert_eq!(
        got,
        Ok(PlacementEvent {
            timestamp: 1_689_858_026_088,
            actor_id: 1,
            x: 424,
            y: 336,
            aux1: UNSET,
            aux2: UNSET,
            color: 0xff4500,
        })
    );
}

#[test]
fn read_record_reads_a_circle_and_a_rectangle() {
    let mut actors = ActorTable::new();
    let circle = read_record(
        &fields(&["2023-07-20 13:00:26.088 UTC", "mod", "{X: 424, Y: 336, R: 3}", "#000000"]),
        &mut actors,
    )
    .unwrap();
    assert_eq!(circle.decode(), Ok(Shape::Circle { cx: 424, cy: 336, radius: 3 }));
    let rectangle = read_record(
        &fields(&["2023-07-20 13:00:27 UTC", "mod", "1,2,3,4", "#FFFFFF", "ignored"]),
        &mut actors,
    )
    .unwrap();
    assert_eq!(rectangle.decode(), Ok(Shape::Rectangle { ax: 1, ay: 2, bx: 3, by: 4 }));
    assert_eq!(rectangle.timestamp, 1_689_858_027_000);
    assert_eq!((circle.actor_id, rectangle.actor_id), (1, 1));
    assert_eq!(rectangle.color, 0xffffff);
}

#[test]
fn read_record_reports_the_first_fault() {
    let date = "2023-07-20 13:00:26.088 UTC";
    let mut actors = ActorTable::new();
    let mut read = |items: &[&str]| read_record(&fields(items), &mut actors);
    assert_eq!(read(&[]), Err(MalformedEvent::MissingField));
    assert_eq!(read(&["2023-07-20", "a", "1,2", "#000000"]), Err(MalformedEvent::BadDate));
    assert_eq!(read(&["2023-02-30 13:00 UTC", "a", "1,2", "#0"]), Err(MalformedEvent::NoSuchInstant));
    assert_eq!(read(&["bad"]), Err(MalformedEvent::BadDate));
    assert_eq!(read(&[date]), Err(MalformedEvent::MissingField));
    assert_eq!(read(&[date, "a"]), Err(MalformedEvent::MissingField));
    assert_eq!(read(&[date, "a", "1;2", "#000000"]), Err(MalformedEvent::BadCoordinates));
    assert_eq!(read(&[date, "a", "1,2"]), Err(MalformedEvent::MissingField));
    assert_eq!(read(&[date, "a", "1,2", "#red"]), Err(MalformedEvent::BadColor));
}

#[test]
fn read_record_counts_an_actor_once_the_date_was_read() {
    let date = "2023-07-20 13:00:26.088 UTC";
    let mut actors = ActorTable::new();
    assert!(read_record(&fields(&["bad", "early"]), &mut actors).is_err());
    assert_eq!(actors.count(), 0);
    assert!(read_record(&fields(&[date, "first", "nowhere", "#000000"]), &mut actors).is_err());
    assert_eq!(actors.count(), 1);
    let got = read_record(&fields(&[date, "second", "1,2", "#000000"]), &mut actors).unwrap();
    assert_eq!(got.actor_id, 2);
    let got = read_record(&fields(&[date, "first", "1,2", "#000000"]), &mut actors).unwrap();
    assert_eq!(got.actor_id, 1);
}

#[test]
fn read_record_fails_when_no_identifier_is_left() {
    let mut actors = ActorTable::starting_after(i64::MAX);
    let got = read_record(
        &fields(&["2023-07-20 13:00:26.088 UTC", "late", "1,2", "#000000"]),
        &mut actors,
    );
    assert_eq!(got, Err(MalformedEvent::TooManyActors));
}
