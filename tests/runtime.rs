use argon_runtime::collections::{
    argon_arr_new, argon_char_code_at, argon_get, argon_len, argon_parse_int, argon_push,
    argon_set, argon_str_new,
};
use argon_runtime::heap::Heap;
use argon_runtime::host::{
    argon_file_exists, argon_get_args, argon_print, argon_read_file, argon_write_file, text_value,
};
use argon_runtime::kernels::{consume_stack, fib};
use argon_runtime::ops::{
    argon_add, argon_div, argon_eq, argon_gt, argon_lt, argon_mul, argon_sub,
};
use argon_runtime::socket::{
    argon_accept, argon_listen, argon_socket_close, argon_socket_read, argon_socket_write,
    Registry,
};
use argon_runtime::value::{from_int, is_int, is_ptr, to_int, INT_MAX, INT_MIN, NULL};

fn text(heap: &mut Heap, s: &str) -> i64 {
    argon_str_new(heap, s.as_bytes().to_vec())
}

fn content(heap: &Heap, v: i64) -> Vec<u8> {
    text_value(heap, v).expect("a text object")
}

fn list_of(heap: &mut Heap, items: &[i64]) -> i64 {
    let l = argon_arr_new(heap);
    for &v in items {
        argon_push(heap, l, v);
    }
    l
}

#[test]
fn round_trip_over_the_inline_range() {
    for n in [0, 1, -1, 42, -42, 1 << 40, INT_MIN, INT_MAX, INT_MAX - 1, INT_MIN + 1] {
        assert_eq!(to_int(from_int(n)), n);
    }
}

#[test]
fn encoding_of_small_integers() {
    assert_eq!(from_int(0), 1);
    assert_eq!(from_int(1), 3);
    assert_eq!(from_int(-1), -1);
    assert_eq!(from_int(5), 11);
}

#[test]
fn encoding_wraps_past_the_inline_range() {
    assert_eq!(to_int(from_int(INT_MAX + 1)), INT_MIN);
    assert_eq!(to_int(from_int(INT_MIN - 1)), INT_MAX);
}

#[test]
fn tag_partition_of_words() {
    let mut heap = Heap::new();
    let t = text(&mut heap, "x");
    for v in [from_int(0), from_int(-7), from_int(INT_MAX), t, NULL, 4, -2] {
        let kinds = [is_int(v), is_ptr(v), v == NULL];
        assert_eq!(kinds.iter().filter(|k| **k).count(), 1);
    }
    assert!(!is_ptr(0));
}

#[test]
fn add_integers() {
    let mut heap = Heap::new();
    assert_eq!(argon_add(&mut heap, from_int(2), from_int(3)), from_int(5));
    assert_eq!(heap.count(), 0);
}

#[test]
fn add_texts() {
    let mut heap = Heap::new();
    let a = text(&mut heap, "ab");
    let b = text(&mut heap, "cd");
    let r = argon_add(&mut heap, a, b);
    assert!(r != a && r != b);
    assert_eq!(content(&heap, r), b"abcd".to_vec());
    assert_eq!(content(&heap, a), b"ab".to_vec());
}

#[test]
fn add_text_and_integer() {
    let mut heap = Heap::new();
    let a = text(&mut heap, "x=");
    let r = argon_add(&mut heap, a, from_int(5));
    assert_eq!(content(&heap, r), b"x=5".to_vec());
}

#[test]
fn add_integer_and_text() {
    let mut heap = Heap::new();
    let b = text(&mut heap, "=y");
    let r = argon_add(&mut heap, from_int(5), b);
    assert_eq!(content(&heap, r), b"5=y".to_vec());
}

#[test]
fn add_negative_integer_to_text() {
    let mut heap = Heap::new();
    let a = text(&mut heap, "n");
    let r = argon_add(&mut heap, a, from_int(-120));
    assert_eq!(content(&heap, r), b"n-120".to_vec());
}

#[test]
fn add_other_pairs_give_zero() {
    let mut heap = Heap::new();
    let l = argon_arr_new(&mut heap);
    let t = text(&mut heap, "a");
    assert_eq!(argon_add(&mut heap, l, from_int(1)), from_int(0));
    assert_eq!(argon_add(&mut heap, t, l), from_int(0));
    assert_eq!(argon_add(&mut heap, NULL, NULL), from_int(0));
    assert_eq!(heap.count(), 2);
}

#[test]
fn sub_and_mul() {
    assert_eq!(argon_sub(from_int(10), from_int(3)), from_int(7));
    assert_eq!(argon_sub(from_int(3), from_int(10)), from_int(-7));
    assert_eq!(argon_mul(from_int(6), from_int(-7)), from_int(-42));
    assert_eq!(argon_mul(from_int(INT_MAX), from_int(2)), from_int(-2));
}

#[test]
fn div_rounds_toward_zero() {
    assert_eq!(argon_div(from_int(7), from_int(2)), from_int(3));
    assert_eq!(argon_div(from_int(-7), from_int(2)), from_int(-3));
    assert_eq!(argon_div(from_int(7), from_int(-2)), from_int(-3));
    assert_eq!(argon_div(from_int(-7), from_int(-2)), from_int(3));
}

#[test]
fn div_by_zero_gives_zero() {
    for a in [0, 1, -1, 99, INT_MIN, INT_MAX] {
        assert_eq!(argon_div(from_int(a), from_int(0)), from_int(0));
    }
}

#[test]
fn comparisons() {
    assert_eq!(argon_lt(from_int(1), from_int(2)), from_int(1));
    assert_eq!(argon_lt(from_int(2), from_int(2)), from_int(0));
    assert_eq!(argon_gt(from_int(3), from_int(-2)), from_int(1));
    assert_eq!(argon_gt(from_int(-3), from_int(2)), from_int(0));
}

#[test]
fn eq_integers() {
    let heap = Heap::new();
    assert_eq!(argon_eq(&heap, from_int(5), from_int(5)), from_int(1));
    assert_eq!(argon_eq(&heap, from_int(5), from_int(6)), from_int(0));
}

#[test]
fn eq_distinct_texts_with_same_bytes() {
    let mut heap = Heap::new();
    let a = text(&mut heap, "hi");
    let b = text(&mut heap, "hi");
    let c = text(&mut heap, "ho");
    assert!(a != b);
    assert_eq!(argon_eq(&heap, a, b), from_int(1));
    assert_eq!(argon_eq(&heap, a, c), from_int(0));
}

#[test]
fn eq_text_and_integer_never() {
    let mut heap = Heap::new();
    let a = text(&mut heap, "5");
    assert_eq!(argon_eq(&heap, a, from_int(5)), from_int(0));
    assert_eq!(argon_eq(&heap, from_int(5), a), from_int(0));
}

#[test]
fn eq_lists_by_identity_only() {
    let mut heap = Heap::new();
    let a = argon_arr_new(&mut heap);
    let b = argon_arr_new(&mut heap);
    assert_eq!(argon_eq(&heap, a, a), from_int(1));
    assert_eq!(argon_eq(&heap, a, b), from_int(0));
}

#[test]
fn index_get_on_list() {
    let mut heap = Heap::new();
    let l = list_of(&mut heap, &[from_int(10), from_int(20), from_int(30)]);
    assert_eq!(argon_get(&mut heap, l, from_int(5)), NULL);
    assert_eq!(argon_get(&mut heap, l, from_int(1)), from_int(20));
    assert_eq!(argon_get(&mut heap, l, from_int(-1)), NULL);
}

#[test]
fn index_get_on_text_allocates() {
    let mut heap = Heap::new();
    let t = text(&mut heap, "abc");
    let before = heap.count();
    let r = argon_get(&mut heap, t, from_int(2));
    assert_eq!(heap.count(), before + 1);
    assert_eq!(content(&heap, r), b"c".to_vec());
    assert_eq!(argon_get(&mut heap, t, from_int(3)), NULL);
    assert_eq!(argon_get(&mut heap, from_int(3), from_int(0)), NULL);
}

#[test]
fn index_set_in_and_out_of_bounds() {
    let mut heap = Heap::new();
    let l = list_of(&mut heap, &[from_int(1), from_int(2)]);
    assert_eq!(argon_set(&mut heap, l, from_int(0), from_int(9)), from_int(9));
    assert_eq!(argon_get(&mut heap, l, from_int(0)), from_int(9));
    assert_eq!(argon_set(&mut heap, l, from_int(7), from_int(8)), from_int(8));
    assert_eq!(argon_len(&heap, l), from_int(2));
    let t = text(&mut heap, "ab");
    assert_eq!(argon_set(&mut heap, t, from_int(0), from_int(8)), from_int(8));
    assert_eq!(content(&heap, t), b"ab".to_vec());
}

#[test]
fn length_of_each_kind() {
    let mut heap = Heap::new();
    let t = text(&mut heap, "héllo");
    let l = list_of(&mut heap, &[NULL, NULL, NULL]);
    assert_eq!(argon_len(&heap, t), from_int(6));
    assert_eq!(argon_len(&heap, l), from_int(3));
    assert_eq!(argon_len(&heap, NULL), from_int(0));
    assert_eq!(argon_len(&heap, from_int(12)), from_int(0));
}

#[test]
fn push_returns_same_reference_and_grows() {
    let mut heap = Heap::new();
    let l = argon_arr_new(&mut heap);
    assert_eq!(argon_len(&heap, l), from_int(0));
    assert_eq!(argon_push(&mut heap, l, from_int(4)), l);
    assert_eq!(argon_len(&heap, l), from_int(1));
    assert_eq!(argon_push(&mut heap, l, from_int(5)), l);
    assert_eq!(argon_len(&heap, l), from_int(2));
}

#[test]
fn push_onto_non_list_is_ignored() {
    let mut heap = Heap::new();
    let t = text(&mut heap, "ab");
    assert_eq!(argon_push(&mut heap, t, from_int(1)), t);
    assert_eq!(argon_len(&heap, t), from_int(2));
    assert_eq!(argon_push(&mut heap, from_int(3), from_int(1)), from_int(3));
}

#[test]
fn char_code_at_offsets() {
    let mut heap = Heap::new();
    let t = text(&mut heap, "Az");
    assert_eq!(argon_char_code_at(&heap, t, from_int(0)), from_int(65));
    assert_eq!(argon_char_code_at(&heap, t, from_int(1)), from_int(122));
    assert_eq!(argon_char_code_at(&heap, t, from_int(2)), from_int(0));
    assert_eq!(argon_char_code_at(&heap, from_int(1), from_int(0)), from_int(0));
}

#[test]
fn parse_int_well_formed() {
    let mut heap = Heap::new();
    let t = text(&mut heap, "42");
    assert_eq!(argon_parse_int(&heap, t), from_int(42));
    let n = text(&mut heap, "-17");
    assert_eq!(argon_parse_int(&heap, n), from_int(-17));
    let p = text(&mut heap, "+8");
    assert_eq!(argon_parse_int(&heap, p), from_int(8));
}

#[test]
fn parse_int_malformed_gives_zero() {
    let mut heap = Heap::new();
    for s in ["abc", "", "-", "+", "4 2", " 42", "12a", "99999999999999999999"] {
        let t = text(&mut heap, s);
        assert_eq!(argon_parse_int(&heap, t), from_int(0));
    }
    assert_eq!(argon_parse_int(&heap, from_int(42)), from_int(0));
}

#[test]
fn parse_int_at_the_word_limits() {
    let mut heap = Heap::new();
    let max = text(&mut heap, "9223372036854775807");
    assert_eq!(argon_parse_int(&heap, max), from_int(i64::MAX));
    let min = text(&mut heap, "-9223372036854775808");
    assert_eq!(argon_parse_int(&heap, min), from_int(i64::MIN));
    let over = text(&mut heap, "9223372036854775808");
    assert_eq!(argon_parse_int(&heap, over), from_int(0));
}

#[test]
fn get_args_builds_list_of_texts() {
    let mut heap = Heap::new();
    let args = vec![b"prog".to_vec(), b"-v".to_vec(), Vec::new()];
    let l = argon_get_args(&mut heap, &args);
    assert_eq!(argon_len(&heap, l), from_int(3));
    for (i, a) in args.iter().enumerate() {
        let item = argon_get(&mut heap, l, from_int(i as i64));
        assert_eq!(&content(&heap, item), a);
    }
}

#[test]
fn print_lines() {
    let mut heap = Heap::new();
    let t = text(&mut heap, "hello");
    let l = argon_arr_new(&mut heap);
    assert_eq!(argon_print(&heap, from_int(-12)), b"-12".to_vec());
    assert_eq!(argon_print(&heap, from_int(0)), b"0".to_vec());
    assert_eq!(argon_print(&heap, t), b"hello".to_vec());
    assert_eq!(argon_print(&heap, l), b"[Array]".to_vec());
    assert_eq!(argon_print(&heap, NULL), b"[Null]".to_vec());
}

#[test]
fn read_file_outcomes() {
    let mut heap = Heap::new();
    let p = text(&mut heap, "a.txt");
    let r = argon_read_file(&mut heap, p, Some(b"body".to_vec()));
    assert_eq!(content(&heap, r), b"body".to_vec());
    assert_eq!(argon_read_file(&mut heap, p, None), NULL);
    assert_eq!(argon_read_file(&mut heap, from_int(1), Some(b"x".to_vec())), NULL);
}

#[test]
fn write_file_and_exists_flags() {
    let mut heap = Heap::new();
    let p = text(&mut heap, "a.txt");
    let c = text(&mut heap, "body");
    assert_eq!(argon_write_file(&heap, p, c, true), from_int(1));
    assert_eq!(argon_write_file(&heap, p, c, false), from_int(0));
    assert_eq!(argon_write_file(&heap, p, from_int(3), true), from_int(0));
    assert_eq!(argon_file_exists(&heap, p, true), from_int(1));
    assert_eq!(argon_file_exists(&heap, p, false), from_int(0));
    assert_eq!(argon_file_exists(&heap, NULL, true), from_int(0));
}

#[test]
fn accept_on_invalid_handle_after_listen() {
    let mut reg: Registry<u32, u32> = Registry::new();
    let h = argon_listen(&mut reg, Some(7));
    assert!(to_int(h) >= 0);
    let bad = from_int(to_int(h) + 1000);
    assert_eq!(argon_accept(&mut reg, bad, Some(1)), from_int(-1));
    assert!(reg.stream(from_int(0)).is_none());
}

#[test]
fn listen_failure_gives_minus_one() {
    let mut reg: Registry<u32, u32> = Registry::new();
    assert_eq!(argon_listen(&mut reg, None), from_int(-1));
    assert_eq!(argon_listen(&mut reg, Some(1)), from_int(0));
    assert_eq!(argon_listen(&mut reg, Some(2)), from_int(1));
    assert_eq!(reg.listener(from_int(1)), Some(&2));
}

#[test]
fn stream_lifecycle() {
    let mut heap = Heap::new();
    let mut reg: Registry<u32, u32> = Registry::new();
    let l = argon_listen(&mut reg, Some(1));
    assert_eq!(argon_accept(&mut reg, l, None), from_int(-1));
    let s = argon_accept(&mut reg, l, Some(9));
    assert_eq!(s, from_int(0));
    let got = argon_socket_read(&mut heap, &reg, s, Some(b"ping".to_vec()));
    assert_eq!(content(&heap, got), b"ping".to_vec());
    let closed_peer = argon_socket_read(&mut heap, &reg, s, Some(Vec::new()));
    assert!(is_ptr(closed_peer));
    assert_eq!(argon_len(&heap, closed_peer), from_int(0));
    let msg = text(&mut heap, "pong");
    assert_eq!(argon_socket_write(&heap, &reg, s, msg, true), from_int(1));
    assert_eq!(argon_socket_write(&heap, &reg, s, msg, false), from_int(0));
    assert_eq!(argon_socket_write(&heap, &reg, s, from_int(1), true), from_int(0));
    assert_eq!(argon_socket_close(&mut reg, s), from_int(1));
    assert_eq!(argon_socket_read(&mut heap, &reg, s, Some(b"x".to_vec())), from_int(0));
    assert_eq!(argon_socket_write(&heap, &reg, s, msg, true), from_int(0));
    assert_eq!(argon_socket_close(&mut reg, from_int(50)), from_int(1));
    let s2 = argon_accept(&mut reg, l, Some(10));
    assert_eq!(s2, from_int(1));
}

#[test]
fn socket_read_on_invalid_handle_gives_integer_zero() {
    let mut heap = Heap::new();
    let reg: Registry<u32, u32> = Registry::new();
    assert_eq!(argon_socket_read(&mut heap, &reg, from_int(0), Some(b"x".to_vec())), from_int(0));
    assert_eq!(heap.count(), 0);
}

#[test]
fn fib_values() {
    assert_eq!(fib(0), 0);
    assert_eq!(fib(1), 1);
    assert_eq!(fib(10), 55);
    assert_eq!(fib(20), 6765);
    assert_eq!(fib(-3), -3);
}

#[test]
fn consume_stack_reaches_limit() {
    assert_eq!(consume_stack(1000, 0, 1, 2, 3, 4, 5, 6, 7, 8), 1000);
    assert_eq!(consume_stack(5, 9, 0, 0, 0, 0, 0, 0, 0, 0), 9);
}
