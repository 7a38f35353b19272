use atto::wrap::breaks_of;
use atto::wrap::get_linebreak_locations;
use unicode_linebreak::linebreaks;

#[test]
fn first_lb() {
    let line = "12345 67890
1234567 890";
    println!("lbr {:?}", linebreaks(line).collect::<Vec<(usize, unicode_linebreak::BreakOpportunity)>>());

    println!("lb {:?}", get_linebreak_locations(line, 3));
    //assert!(get_linebreak_locations(line, 5) == vec![5]);
}

#[test]
fn breaks_stand_before_what_reaches_the_width() {
    assert_eq!(get_linebreak_locations("12345 67890 abc", 8), vec![6, 12]);
    assert_eq!(get_linebreak_locations("12345 67890 abc", 100), Vec::<usize>::new());
    assert_eq!(get_linebreak_locations("12345 67890 abc", 0), vec![6, 12]);
    assert_eq!(get_linebreak_locations("ab cd   \n", 1), vec![3]);
    assert_eq!(get_linebreak_locations("", 0), Vec::<usize>::new());
    assert_eq!(breaks_of(&vec![6, 12, 15], 12), vec![6, 12]);
    assert_eq!(breaks_of(&vec![6, 12, 15], 6), vec![6, 12]);
    assert_eq!(breaks_of(&vec![6, 12, 15], 13), vec![12]);
}
