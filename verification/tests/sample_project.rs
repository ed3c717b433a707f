use sdd_navigator_service::sample_project::entry::{authenticate_user, process_data, AppError};
use sdd_navigator_service::sample_project::models::{Session, User};
use sdd_navigator_service::sample_project::utils::formatters::{format_date, format_username, CalendarDate};
use sdd_navigator_service::sample_project::utils::validators::{validate_email, validate_password};

#[test]
fn test_email_validation() {
    assert!(validate_email("test@example.com"));
    assert!(!validate_email("invalid-email"));
}

#[test]
fn email_needs_at_and_dot() {
    assert!(!validate_email("user@localhost"));
    assert!(!validate_email("user.name"));
    assert!(validate_email("a@b.c"));
}

#[test]
fn password_strength() {
    assert!(validate_password("Passw0rd"));
    assert!(!validate_password("Pass0rd"));
    assert!(!validate_password("password1"));
    assert!(!validate_password("PASSWORD"));
    // Ä takes two bytes: four of them and a digit make nine bytes, three make seven.
    assert!(validate_password("ÄÄÄÄ1"));
    assert!(!validate_password("ÄÄÄ1"));
}

#[test]
fn usernames_are_trimmed_and_lowercased() {
    assert_eq!(format_username("  Alice Smith \t\n"), "alice smith");
    assert_eq!(format_username("BOB"), "bob");
    assert_eq!(format_username("   "), "");
}

#[test]
fn users_are_checked() {
    let u = User::new("alice".to_string(), "alice@example.com".to_string());
    assert_eq!(u.id, 0);
    assert!(u.is_active);
    assert!(u.validate().is_ok());
    let u = User::new(String::new(), "alice@example.com".to_string());
    assert_eq!(u.validate(), Err("Username cannot be empty".to_string()));
    let u = User::new("alice".to_string(), "alice.example.com".to_string());
    assert_eq!(u.validate(), Err("Invalid email format".to_string()));
}

#[test]
fn sessions_last_a_day() {
    let s = Session::new(7);
    assert_eq!(s.user_id, 7);
    assert_eq!(s.expires_at.seconds - s.created_at.seconds, 86400);
    assert_eq!(s.id.len(), 36);
    assert!(s.is_valid());
    assert!(s.is_valid_at(s.created_at));
    assert!(!s.is_valid_at(s.expires_at));
}

#[test]
fn sign_in_and_process() {
    let u = authenticate_user("admin", "password");
    assert_eq!(u.username, "admin");
    assert!(u.is_authenticated);
    assert_eq!(process_data(&u), "Data processed successfully");
    let mut v = u.clone();
    v.is_authenticated = false;
    assert_eq!(process_data(&v), "Authentication required");
    assert_ne!(AppError::AuthenticationError, AppError::ProcessingError);
}

#[test]
fn format_date_pads_month_and_day() {
    let d = CalendarDate::from_ymd(2024, 3, 5).unwrap();
    assert_eq!(format_date(d), "2024-03-05");
    assert_eq!(format_date(CalendarDate::from_ymd(7, 12, 31).unwrap()), "0007-12-31");
}

#[test]
fn format_date_signs_years_outside_four_digits() {
    assert_eq!(format_date(CalendarDate::from_ymd(12345, 6, 1).unwrap()), "+12345-06-01");
    assert_eq!(format_date(CalendarDate::from_ymd(-5, 3, 1).unwrap()), "-0005-03-01");
}

#[test]
fn calendar_dates_follow_leap_years() {
    assert!(CalendarDate::from_ymd(2024, 2, 29).is_some());
    assert!(CalendarDate::from_ymd(2023, 2, 29).is_none());
    assert!(CalendarDate::from_ymd(1900, 2, 29).is_none());
    assert!(CalendarDate::from_ymd(2000, 2, 29).is_some());
    assert!(CalendarDate::from_ymd(2024, 4, 31).is_none());
    assert!(CalendarDate::from_ymd(2024, 13, 1).is_none());
    assert!(CalendarDate::from_ymd(2024, 1, 0).is_none());
    assert!(CalendarDate::from_ymd(262143, 1, 1).is_none());
    let d = CalendarDate::from_ymd(-262143, 1, 1).unwrap();
    assert_eq!((d.year(), d.month(), d.day()), (-262143, 1, 1));
}

#[test]
fn format_username_trims_and_lowercases() {
    let once = format_username("  Alice ");
    assert_eq!(once, "alice");
    assert_eq!(format_username(&once), once);
}

#[test]
fn format_username_on_ascii_settles() {
    for name in ["  MiXeD Case\t", "bob", "\n", "A B"] {
        let once = format_username(name);
        assert_eq!(format_username(&once), once);
    }
    assert_eq!(format_username(" A B "), "a b");
}
