use minigrep::adder::add_two;
use minigrep::adder::greeting;
use minigrep::adder::Rectangle;
use minigrep::cacher::Cacher;
use minigrep::carols::lyric;
use minigrep::carols::verse_phrases;
use minigrep::directory::parse_command;
use minigrep::directory::Command;
use minigrep::enums::plus_one;
use minigrep::enums::plus_one_int_return;
use minigrep::fib;
use minigrep::guessing::guess_outcome;
use minigrep::guessing::Guess;
use minigrep::guessing::GuessOutcome;
use minigrep::iterative_fib;
use minigrep::iterators::shoes_in_my_size;
use minigrep::iterators::Counter;
use minigrep::iterators::Shoe;
use minigrep::largest::largest;
use minigrep::largest::largest_char;
use minigrep::largest::largest_i32;
use minigrep::lifetimes::longest;
use minigrep::outermost;
use minigrep::ownership::calculate_length;
use minigrep::ownership::calculate_length_by_reference;
use minigrep::ownership::change;
use minigrep::ownership::gives_ownership;
use minigrep::ownership::takes_and_gives_back;
use minigrep::pig_latin::folder;
use minigrep::pig_latin::pig_latin;
use minigrep::pig_latin::pig_latin_map_n_fold;
use minigrep::pig_latin::pig_one;
use minigrep::shapes;
use minigrep::stats::calculate_median;
use minigrep::stats::calculate_mode;
use minigrep::summaries::NewsArticle;
use minigrep::summaries::Summary;
use minigrep::summaries::Tweet;
use minigrep::words::first_word;
use minigrep::words::first_word_index;

#[test]
fn call_cacher_with_different_values() {
    let mut c = Cacher::new(|a| a);

    let _v1 = c.value(1);
    let _v2 = c.value(2);
    let v3 = c.value(3);

    assert_eq!(v3, 3);
}

#[test]
fn cacher_replays_cached_values() {
    let mut c = Cacher::new(|a| a + 10);
    assert_eq!(c.value(5), 15);
    assert_eq!(c.value(5), 15);
}

#[test]
fn consume_iterator() {
    let v1 = vec![1, 2, 3];
    let mut v1_iter = v1.iter();

    assert_eq!(v1_iter.next(), Some(&1));
    assert_eq!(v1_iter.next(), Some(&2));
    assert_eq!(v1_iter.next(), Some(&3));
    assert_eq!(v1_iter.next(), None);
}

#[test]
fn iterator_sum() {
    let v1 = vec![1, 2, 3];
    let v1_iter = v1.iter();

    let total: i32 = v1_iter.sum();

    assert_eq!(total, 6);
}

#[test]
fn map_and_collect() {
    let v1: Vec<i32> = vec![1, 2, 3];
    let v2: Vec<_> = v1.iter().map(|x| x + 1).collect();

    assert_eq!(v2, vec![2, 3, 4]);
}

#[test]
fn filters_shoes_by_size() {
    let shoes = vec![
        Shoe { size: 10, style: String::from("sneaker") },
        Shoe { size: 13, style: String::from("sandal") },
        Shoe { size: 10, style: String::from("boot") },
    ];

    let in_my_size = shoes_in_my_size(shoes, 10);

    assert_eq!(
        in_my_size,
        vec![
            Shoe { size: 10, style: String::from("sneaker") },
            Shoe { size: 10, style: String::from("boot") },
        ]
    );
}

#[test]
fn counter_calling_next_directly() {
    let mut counter = Counter::new();

    assert_eq!(counter.next(), Some(1));
    assert_eq!(counter.next(), Some(2));
    assert_eq!(counter.next(), Some(3));
    assert_eq!(counter.next(), Some(4));
    assert_eq!(counter.next(), Some(5));
    assert_eq!(counter.next(), None);
    assert_eq!(counter.next(), None);
}

#[test]
fn counter_using_other_iterator_trait_methods() {
    // Pair each value of one counter with the values of another counter
    // that skipped its first value, multiply each pair, keep multiples of
    // three, and sum them; the counter has no iterator adapters, so the
    // pairing is driven by hand.
    let mut first = Counter::new();
    let mut second = Counter::new();
    let _ = second.next();

    let mut sum: u32 = 0;
    loop {
        let a = match first.next() {
            Some(a) => a,
            None => break,
        };
        let b = match second.next() {
            Some(b) => b,
            None => break,
        };
        let product = a * b;
        if product % 3 == 0 {
            sum += product;
        }
    }
    assert_eq!(18, sum);
}

#[test]
fn it_works() {
    assert_eq!(2 + 2, 4);
}

#[test]
fn exploration() {
    assert_eq!(2 + 2, 4);
    assert_ne!(2 + 10, 4);
    assert!(2 + 2 == 4);
}

#[test]
fn larger_can_hold_smaller() {
    let larger = Rectangle { length: 8, width: 7 };
    let smaller = Rectangle { length: 5, width: 1 };

    assert!(larger.can_hold(&smaller));
}

#[test]
fn smaller_cannot_hold_larger() {
    let larger = Rectangle { length: 8, width: 7 };
    let smaller = Rectangle { length: 5, width: 1 };

    assert!(!smaller.can_hold(&larger));
}

#[test]
#[should_panic(expected = "Make this test fail")]
fn always_fail() {
    panic!("Make this test fail");
}

#[test]
fn it_adds_two() {
    assert!(4 == add_two(2));
}

#[test]
fn greeting_includes_the_name() {
    assert_eq!("Hello Carol!", greeting("Carol"));
}

#[test]
fn fib_small_values() {
    assert_eq!(fib(0), 0);
    assert_eq!(fib(1), 1);
    assert_eq!(fib(10), 55);
}

#[test]
fn both_fib_versions_agree() {
    for n in 0..20 {
        assert_eq!(fib(n), iterative_fib(n));
    }
}

#[test]
fn guess_round_trips_its_value() {
    let guess = Guess::new(42);
    assert_eq!(42, guess.value());
}

#[test]
fn guess_outcome_covers_all_cases() {
    assert_eq!(GuessOutcome::TooSmall, guess_outcome(10, 50));
    assert_eq!(GuessOutcome::TooBig, guess_outcome(90, 50));
    assert_eq!(GuessOutcome::Win, guess_outcome(50, 50));
}

#[test]
fn plus_one_matches_option_shape() {
    assert_eq!(plus_one(Some(5)), Some(6));
    assert_eq!(plus_one(None), None);
    assert_eq!(plus_one_int_return(Some(5)), 6);
    assert_eq!(plus_one_int_return(None), 0);
}

#[test]
fn largest_of_each_kind() {
    let number_list = vec![34, 50, 25, 100, 65];
    assert_eq!(100, largest_i32(&number_list));
    assert_eq!(&100, largest(&number_list));

    let char_list = vec!['y', 'm', 'z', 'a', 'q'];
    assert_eq!('z', largest_char(&char_list));
    assert_eq!(&'z', largest(&char_list));
}

#[test]
fn longest_picks_the_longer_slice() {
    assert_eq!("abcd", longest("abcd", "xyz"));
    assert_eq!("pppp", longest("zxv", "pppp"));
}

#[test]
fn ownership_round_trips() {
    assert_eq!("hello", gives_ownership());
    assert_eq!("hello give back", takes_and_gives_back("hello give back".to_string()));

    let (s, len) = calculate_length("hello".to_string());
    assert_eq!("hello", s);
    assert_eq!(5, len);
    assert_eq!(5, calculate_length_by_reference(&s));

    let mut greeting_string = String::from("hello");
    change(&mut greeting_string);
    assert_eq!("hello, world", greeting_string);
}

#[test]
fn first_word_stops_at_the_space() {
    let s = String::from("Mr Miagi");
    assert_eq!(2, first_word_index(&s));
    assert_eq!("Mr", first_word(&s));
    assert_eq!("hello", first_word("hello world"));
    assert_eq!("hello", first_word("hello"));
}

#[test]
fn median_and_mode_of_the_sample_list() {
    let v = vec![1, 13, 75, 123, 14, 12, 12, 75, 99, 75, 1, 1];
    assert_eq!(14, calculate_median(&v));
    assert_eq!(75, calculate_mode(&v));
}

#[test]
fn median_of_tiny_lists() {
    assert_eq!(7, calculate_median(&vec![7]));
    assert_eq!(2, calculate_median(&vec![2, 1, 2]));
}

#[test]
fn pig_one_handles_vowels_and_consonants() {
    assert_eq!("irst-fay", pig_one("first"));
    assert_eq!("apple-hay", pig_one("apple"));
    assert_eq!("Apple-hay", pig_one("Apple"));
    assert_eq!("", pig_one(""));
}

#[test]
fn pig_latin_translates_the_sample_sentence() {
    let sentence = "First the Apple does not fall far from the tree sir";
    let expected = "irst-Fay he-tay Apple-hay oes-day ot-nay all-fay ar-fay rom-fay he-tay ree-tay ir-say";
    assert_eq!(expected, pig_latin(sentence));
    assert_eq!(expected, pig_latin_map_n_fold(sentence));
}

#[test]
fn folder_spaces_words_apart() {
    assert_eq!("word", folder(String::new(), "word".to_string()));
    assert_eq!("two words", folder("two".to_string(), "words".to_string()));
}

#[test]
fn parse_command_recognises_each_form() {
    match parse_command("Add Sally Ride to Engineering") {
        Command::Add { name, department } => {
            assert_eq!("Sally Ride", name);
            assert_eq!("Engineering", department);
        },
        _ => panic!("expected an add command"),
    }
    match parse_command("List Sales") {
        Command::ListDepartment(department) => assert_eq!("Sales", department),
        _ => panic!("expected a department listing"),
    }
    assert!(matches!(parse_command("list"), Command::List));
    assert!(matches!(parse_command("HELP"), Command::Help));
    assert!(matches!(parse_command("quit"), Command::Exit));
    assert!(matches!(parse_command("exit"), Command::Exit));
    assert!(matches!(parse_command("add nobody anywhere"), Command::Unknown));
    assert!(matches!(parse_command(""), Command::Unknown));
    assert!(matches!(parse_command("dance"), Command::Unknown));
}

#[test]
fn shapes_have_areas_and_containment() {
    let rect1 = shapes::Rectangle { width: 30, height: 50 };
    let rect2 = shapes::Rectangle { width: 10, height: 40 };
    let rect3 = shapes::Rectangle { width: 60, height: 45 };
    let square = shapes::Rectangle::square(55);

    assert_eq!(1500, shapes::area(&rect1));
    assert_eq!(1500, rect1.area());
    assert!(rect1.can_hold(&rect2));
    assert!(!rect1.can_hold(&rect3));
    assert_eq!(3025, square.area());
}

#[test]
fn summaries_read_as_expected() {
    let article = NewsArticle {
        headline: String::from("Penguins win the Stanley Cup Championship!"),
        location: String::from("Pittsburgh, PA, USA"),
        author: String::from("Iceburgh"),
        content: String::from("The Pittsburgh Penguins once again are the best hockey team in the NHL."),
    };

    let tweet = Tweet {
        username: String::from("horse_ebooks"),
        content: String::from("of course, as you probably already know, people"),
        reply: false,
        retweet: false,
    };

    assert_eq!(
        "Penguins win the Stanley Cup Championship!, by Iceburgh (Pittsburgh, PA, USA)",
        article.summarize()
    );
    assert_eq!("Iceburgh", article.summarize_author());
    assert_eq!("(Read more from Iceburgh...)", article.summarize_again());

    assert_eq!("horse_ebooks: of course, as you probably already know, people", tweet.summarize());
    assert_eq!("@horse_ebooks", tweet.summarize_author());
    assert_eq!("(moar super fun tweets from @horse_ebooks)", tweet.summarize_again());
}

#[test]
fn module_privacy_demo_is_callable() {
    outermost::middle_function();
    outermost::inside::inner_function();
    outermost::inside::secret_function();
    outermost::try_me();
}

#[test]
fn carol_verses_count_down() {
    assert_eq!("partridge in a pear tree", lyric(0));
    assert_eq!("drummers drumming", lyric(11));
    assert_eq!(
        vec![
            "french hens".to_string(),
            "turtle doves".to_string(),
            "partridge in a pear tree".to_string(),
        ],
        verse_phrases(2)
    );
}
