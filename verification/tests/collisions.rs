use blog3::clock::Timestamp;
use blog3::coordinator::Coordinator;
use blog3::draft::Draft;
use blog3::ident::PostId;
use blog3::reading::Reading;

struct Dice(u64);

impl Dice {
    fn roll(&mut self, sides: usize) -> usize {
        self.0 = self.0.wrapping_mul(6364136223846793005).wrapping_add(1442695040888963407);
        ((self.0 >> 33) as usize) % sides
    }
}

const TITLES: [&str; 14] = [
    "a",
    "a 2024-03-05",
    "a 2024-03-05 1",
    "a 2024-03-05 10",
    "a 2024-03",
    "a 2024",
    "a 2024-03-05 2024-03-05",
    "a 2024-03-05 2024-03-05 1",
    "2024-03-05",
    "???",
    "a 0003-05",
    "a 2024-03-05 0003",
    "a 003",
    "a 2024-03-05 12",
];

const DAYS: [(i32, u32, u32); 10] = [
    (2024, 3, 5),
    (2024, 3, 6),
    (2024, 3, 10),
    (2024, 3, 12),
    (2024, 10, 12),
    (2024, 12, 31),
    (3, 5, 12),
    (0, 3, 5),
    (-3, 5, 12),
    (12024, 3, 5),
];

fn on(day: (i32, u32, u32)) -> Timestamp {
    Timestamp {
        year: day.0,
        month: day.1,
        day: day.2,
        hour: 0,
        minute: 0,
        second: 0,
        nanosecond: 0,
        offset_seconds: 0,
    }
}

fn draft(title: &str) -> Draft {
    Draft { title: String::from(title), subtitle: None, content: String::new() }
}

#[test]
fn revisions_in_a_grown_blog_never_collide() {
    for seed in 1..=6u64 {
        let mut dice = Dice(seed);
        let mut blog = Coordinator::new();
        let mut posts: u128 = 0;
        for _ in 0..700 {
            let title = TITLES[dice.roll(TITLES.len())];
            let at = on(DAYS[dice.roll(DAYS.len())]);
            let receipt = if posts == 0 || dice.roll(3) == 0 {
                posts += 1;
                blog.publish_as(PostId { value: posts }, at, draft(title))
            } else {
                let id = PostId { value: 1 + dice.roll(posts as usize) as u128 };
                blog.update_as(id, at, draft(title))
            };
            let receipt = receipt.unwrap();
            match blog.read_by_slug(&receipt.slug) {
                Ok(Reading::Page(post)) => assert_eq!(post.id, receipt.id),
                other => panic!("{}: {other:?}", receipt.slug),
            }
        }
        for n in 1..=posts {
            let rows = blog.directory().history(PostId { value: n });
            assert_eq!(rows.iter().filter(|row| row.superseded_by.is_none()).count(), 1);
        }
    }
}
