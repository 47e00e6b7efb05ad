use chat_core::ascii::{Ascii, NotAsciiError};
use chat_core::commands::{get_next_token, parse_command, trim_start};
use chat_core::protocol::FromClient;
use chat_core::enums::{compare, http_status_from_u32, HttpStatus, RoughTime, TimeUnit};
use chat_core::gap_buffer::GapBuffer;
use chat_core::numbers::{factorial, gcd};
use chat_core::patterns::{describe_point, hsl_to_rgb, rough_time_to_english};
use chat_core::queue::Queue;
use chat_core::structs::{find_extrema, new_map};
use chat_core::text::u64_to_decimal;
use chat_core::traits::{Mult, Sink, Width};
use chat_core::tree::{BinaryTree, TreeNode};
use std::cmp::Ordering;
use std::f64::consts::PI;
use std::sync::Arc;

#[test]
fn it_works() {
    let result = chat_core::ranges::add(2, 2);
    assert_eq!(result, 4);
}

fn roughly_equal(a: f64, b: f64) -> bool {
    (a - b).abs() < 1e-6
}

#[test]
fn trig_works() {
    assert!(roughly_equal(PI.sin(), 0.0));
}

#[test]
fn test_gcd() {
    assert_eq!(gcd(14, 15), 1);

    assert_eq!(gcd(2 * 3 * 5 * 11 * 17, 3 * 7 * 11 * 13 * 19), 3 * 11);
}

#[test]
fn overlap_counts_only_nonempty_intersections() {
    assert_eq!(chat_core::ranges::overlap(0..7, 3..10), true);
    assert_eq!(chat_core::ranges::overlap(1..5, 101..105), false);
    assert_eq!(chat_core::ranges::overlap(0..0, 0..10), false);
}

#[test]
fn decimal_rendering_is_exact() {
    assert_eq!(u64_to_decimal(0), "0");
    assert_eq!(u64_to_decimal(7), "7");
    assert_eq!(u64_to_decimal(40), "40");
    assert_eq!(u64_to_decimal(12345), "12345");
    assert_eq!(u64_to_decimal(u64::MAX), "18446744073709551615");
}

#[test]
fn queue_is_first_in_first_out() {
    let mut q = Queue::new();
    q.push('0');
    q.push('1');
    assert_eq!(q.pop(), Some('0'));
    q.push('=');
    assert_eq!(q.pop(), Some('1'));
    assert_eq!(q.pop(), Some('='));
    assert_eq!(q.pop(), None);
    assert!(q.is_empty());
    q.push('x');
    assert!(!q.is_empty());
    let (older, younger) = q.split();
    assert_eq!(older, Vec::new());
    assert_eq!(younger, vec!['x']);
}

#[test]
fn gap_buffer_edits_around_the_point() {
    let mut buf: GapBuffer<char> = GapBuffer::new();
    assert_eq!(buf.capacity(), 0);
    assert_eq!(buf.len(), 0);
    buf.insert_iter("the quick fox".chars().collect::<Vec<char>>());
    assert_eq!(buf.len(), 13);
    assert_eq!(buf.position(), 13);
    buf.set_position(4);
    assert_eq!(buf.get(4), Some(&'q'));
    buf.insert_iter("very ".chars().collect::<Vec<char>>());
    assert_eq!(buf.position(), 9);
    let collected: String = (0..buf.len()).map(|i| *buf.get(i).unwrap()).collect();
    assert_eq!(collected, "the very quick fox");
    assert_eq!(buf.remove(), Some('q'));
    assert_eq!(buf.remove(), Some('u'));
    let collected: String = (0..buf.len()).map(|i| *buf.get(i).unwrap()).collect();
    assert_eq!(collected, "the very ick fox");
    buf.set_position(buf.len());
    assert_eq!(buf.remove(), None);
    assert_eq!(buf.get(99), None);
    assert!(buf.capacity() >= buf.len());
}

#[test]
fn ascii_accepts_only_ascii() {
    let good = Ascii::from_bytes(b"hello".to_vec()).expect("plain ASCII");
    assert_eq!(good.as_bytes(), &b"hello".to_vec());
    let bad = Ascii::from_bytes(vec![0x66, 0xff, 0x6f]);
    assert_eq!(bad, Err(NotAsciiError(vec![0x66, 0xff, 0x6f])));
}

#[test]
fn rough_times_read_naturally() {
    assert_eq!(
        rough_time_to_english(RoughTime::InThePast(TimeUnit::Months, 18)),
        "18 months ago"
    );
    assert_eq!(rough_time_to_english(RoughTime::JustNow), "just now");
    assert_eq!(
        rough_time_to_english(RoughTime::InTheFuture(TimeUnit::Hours, 1)),
        "a hour from now"
    );
    assert_eq!(
        rough_time_to_english(RoughTime::InTheFuture(TimeUnit::Years, 5)),
        "5 years from now"
    );
}

#[test]
fn unit_names_have_both_numbers() {
    assert_eq!(TimeUnit::Seconds.plural(), "seconds");
    assert_eq!(TimeUnit::Seconds.singular(), "second");
    assert_eq!(TimeUnit::Days.plural(), "days");
    assert_eq!(TimeUnit::Days.singular(), "day");
}

#[test]
fn points_are_placed() {
    assert_eq!(describe_point(0, 0), "at the origin");
    assert_eq!(describe_point(3, 0), "on the x axis");
    assert_eq!(describe_point(0, -2), "on the y axis");
    assert_eq!(describe_point(1, 1), "in the first quadrant");
    assert_eq!(describe_point(-1, 1), "in the second quadrant");
    assert_eq!(describe_point(-1, -1), "somewhere else");
}

#[test]
fn black_and_white_convert_exactly() {
    assert_eq!(hsl_to_rgb([10, 20, 0]), [0, 0, 0]);
    assert_eq!(hsl_to_rgb([10, 20, 255]), [255, 255, 255]);
    assert_eq!(hsl_to_rgb([10, 20, 128]), [1, 1, 1]);
}

#[test]
fn known_statuses_decode() {
    assert_eq!(http_status_from_u32(200), Some(HttpStatus::Okay));
    assert_eq!(http_status_from_u32(304), Some(HttpStatus::NotModified));
    assert_eq!(http_status_from_u32(404), Some(HttpStatus::NotFound));
    assert_eq!(http_status_from_u32(500), None);
}

#[test]
fn comparisons_are_three_way() {
    assert_eq!(compare(1, 2), Ordering::Less);
    assert_eq!(compare(2, 1), Ordering::Greater);
    assert_eq!(compare(2, 2), Ordering::Equal);
}

#[test]
fn factorials_are_products() {
    assert_eq!(factorial(0), 1);
    assert_eq!(factorial(1), 1);
    assert_eq!(factorial(5), 120);
    assert_eq!(factorial(20), 2432902008176640000);
}

#[test]
fn tree_insertion_keeps_search_order() {
    let mut tree: BinaryTree<i64> = BinaryTree::Empty;
    tree.add(5);
    tree.add(2);
    tree.add(8);
    match tree {
        BinaryTree::NonEmpty(node) => {
            let TreeNode { element, left, right } = *node;
            assert_eq!(element, 5);
            match left {
                BinaryTree::NonEmpty(l) => assert_eq!(l.element, 2),
                BinaryTree::Empty => panic!("2 went left of 5"),
            }
            match right {
                BinaryTree::NonEmpty(r) => assert_eq!(r.element, 8),
                BinaryTree::Empty => panic!("8 went right of 5"),
            }
        },
        BinaryTree::Empty => panic!("three elements were added"),
    }
}

#[test]
fn extrema_bound_the_slice() {
    let numbers = [3, -7, 12, 0, 12, -7];
    let e = find_extrema(&numbers);
    assert_eq!(*e.least, -7);
    assert_eq!(*e.greatest, 12);
}

#[test]
fn images_carry_their_size() {
    let map = new_map((4, 3), vec![0u8; 12]);
    assert_eq!(map.size(), (4, 3));
    assert_eq!(map.pixels.len(), 12);
}

#[test]
fn sinks_swallow_everything() {
    let mut sink = Sink;
    assert_eq!(sink.write(b"anything at all"), Ok(15));
    assert_eq!(sink.flush(), Ok(()));
    assert_eq!(Width(70000).mul(70000), 4900000000u64);
}

#[test]
fn spider_robots_count_errors() {
    let mut robot = chat_core::spider::SpiderRobot::new();
    assert!(!robot.has_hardware_errors());
    robot.add_hardware_error();
    robot.add_hardware_error();
    assert!(robot.has_hardware_errors());
}

#[test]
fn json_errors_carry_their_place() {
    let err = chat_core::errors::json_error().unwrap_err();
    assert_eq!(err.message, "expected ']' at end of array");
    assert_eq!(err.line, 0);
    assert_eq!(err.column, 0);
}

#[test]
fn command_lines_parse_exactly() {
    assert_eq!(trim_start("  spaced out "), "spaced out ");
    assert_eq!(get_next_token("  hello world"), Some(("hello", " world")));
    assert_eq!(get_next_token("lone"), Some(("lone", "")));
    assert_eq!(get_next_token("   "), None);

    assert_eq!(
        parse_command("join rust"),
        Some(FromClient::Join { group_name: Arc::new("rust".to_string()) })
    );
    assert_eq!(
        parse_command("  post   dogs   Samoyeds rock!  "),
        Some(FromClient::Post {
            group_name: Arc::new("dogs".to_string()),
            message: Arc::new("Samoyeds rock!  ".to_string()),
        })
    );
    // A post with no message posts the empty message.
    assert_eq!(
        parse_command("post lobby"),
        Some(FromClient::Post {
            group_name: Arc::new("lobby".to_string()),
            message: Arc::new(String::new()),
        })
    );
    // Joins take exactly one argument; unknown words mean nothing.
    assert_eq!(parse_command("join a b"), None);
    assert_eq!(parse_command("join"), None);
    assert_eq!(parse_command("post"), None);
    assert_eq!(parse_command("leave lobby"), None);
    assert_eq!(parse_command("   "), None);
}
