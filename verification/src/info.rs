//! The statistics of the loaded fixtures, altogether and for each category.

use vstd::prelude::*;

use crate::fixtures::LoadedFixture;
use crate::ratio::Ratio;
use crate::text::texts;

verus! {

/// The category and the size of each fixture.
pub open spec fn measures<F>(fixtures: Seq<LoadedFixture<F>>) -> Seq<(Seq<char>, nat)> {
    fixtures.map_values(|f: LoadedFixture<F>| (f.category@, f.raw_size as nat))
}

/// The size of all fixtures together.
pub open spec fn total_size(measures: Seq<(Seq<char>, nat)>) -> nat
    decreases measures.len(),
{
    if measures.len() == 0 {
        0
    } else {
        total_size(measures.drop_last()) + measures.last().1
    }
}

/// The indices of the fixtures of a category, in ascending order.
pub open spec fn indices_of(measures: Seq<(Seq<char>, nat)>, category: Seq<char>) -> Seq<int>
    decreases measures.len(),
{
    if measures.len() == 0 {
        Seq::empty()
    } else {
        let before = indices_of(measures.drop_last(), category);
        if measures.last().0 == category {
            before.push(measures.len() - 1)
        } else {
            before
        }
    }
}

/// The size of the fixtures of a category together.
pub open spec fn category_size(measures: Seq<(Seq<char>, nat)>, category: Seq<char>) -> nat
    decreases measures.len(),
{
    if measures.len() == 0 {
        0
    } else {
        category_size(measures.drop_last(), category) + if measures.last().0 == category {
            measures.last().1
        } else {
            0
        }
    }
}

/// The categories that occur, each once, in the order in which they occur first.
pub open spec fn categories_of(measures: Seq<(Seq<char>, nat)>) -> Seq<Seq<char>>
    decreases measures.len(),
{
    if measures.len() == 0 {
        Seq::empty()
    } else {
        let before = categories_of(measures.drop_last());
        if before.contains(measures.last().0) {
            before
        } else {
            before.push(measures.last().0)
        }
    }
}

/// The statistics of a category.
pub struct CategoryStats {
    pub category: String,
    pub count: usize,
    /// The average size of its fixtures in bytes.
    pub avg_size: Ratio,
    /// The indices of its fixtures.
    pub indices: Vec<usize>,
}

impl CategoryStats {
    /// Whether these are the statistics of a category of some fixtures.
    pub open spec fn describes(
        self,
        measures: Seq<(Seq<char>, nat)>,
        category: Seq<char>,
    ) -> bool {
        &&& self.category@ == category
        &&& self.indices@.map_values(|i: usize| i as int) == indices_of(measures, category)
        &&& self.count == indices_of(measures, category).len()
        &&& (self.avg_size.numerator as nat, self.avg_size.denominator as nat) == Ratio::of_parts(
            category_size(measures, category),
            indices_of(measures, category).len(),
        )
    }
}

/// The statistics of the loaded fixtures.
pub struct InfoResponse {
    pub fixture_count: usize,
    /// The size of all fixtures together in bytes.
    pub total_size: u128,
    /// The average size of a fixture in bytes.
    pub avg_size: Ratio,
    /// The categories that occur, each once.
    pub categories: Vec<CategoryStats>,
}

/// Sizes that each fit in a machine word add up to no more than their number times that.
proof fn sizes_are_bounded(measures: Seq<(Seq<char>, nat)>, category: Seq<char>)
    requires
        forall|i: int| 0 <= i < measures.len() ==> (#[trigger] measures[i]).1 <= usize::MAX,
    ensures
        total_size(measures) <= measures.len() * usize::MAX,
        category_size(measures, category) <= total_size(measures),
    decreases measures.len(),
{
    if measures.len() > 0 {
        let rest = measures.drop_last();
        assert forall|i: int| 0 <= i < rest.len() implies (#[trigger] rest[i]).1 <= usize::MAX by {
            assert(rest[i] == measures[i]);
        }
        sizes_are_bounded(rest, category);
        assert(measures.last() == measures[measures.len() - 1]);
        assert(measures.len() * usize::MAX == rest.len() * usize::MAX + usize::MAX)
            by (nonlinear_arith)
            requires
                measures.len() == rest.len() + 1,
        ;
    }
}

/// As many sizes as a vector can hold add up to a number of twice the machine's word.
proof fn sizes_fit<F>(fixtures: Seq<LoadedFixture<F>>, n: int, category: Seq<char>)
    requires
        0 <= n <= fixtures.len() <= usize::MAX,
    ensures
        total_size(measures(fixtures).take(n)) <= u128::MAX,
        category_size(measures(fixtures).take(n), category) <= u128::MAX,
{
    let part = measures(fixtures).take(n);
    sizes_are_bounded(part, category);
    assert(part.len() * usize::MAX <= u128::MAX) by (nonlinear_arith)
        requires
            part.len() <= usize::MAX,
            usize::MAX <= 0xffff_ffff_ffff_ffff,
    ;
}

/// The size of all fixtures together in bytes.
pub fn sum_sizes<F>(fixtures: &Vec<LoadedFixture<F>>) -> (total: u128)
    ensures
        total == total_size(measures(fixtures@)),
{
    let ghost all = measures(fixtures@);
    let mut total: u128 = 0;
    let mut i: usize = 0;
    while i < fixtures.len()
        invariant
            i <= fixtures.len(),
            all == measures(fixtures@),
            total == total_size(all.take(i as int)),
        decreases fixtures.len() - i,
    {
        proof {
            sizes_fit(fixtures@, i + 1, Seq::empty());
            assert(all.take(i + 1).drop_last() =~= all.take(i as int));
        }
        total = total + fixtures[i].raw_size as u128;
        i = i + 1;
    }
    assert(all.take(fixtures.len() as int) =~= all);
    total
}

/// Whether a text is among some strings.
fn is_listed(list: &Vec<String>, text: &String) -> (listed: bool)
    ensures
        listed == texts(list@).contains(text@),
{
    let ghost all = texts(list@);
    let mut i: usize = 0;
    while i < list.len()
        invariant
            i <= list.len(),
            all == texts(list@),
            forall|j: int| 0 <= j < i ==> all[j] != text@,
        decreases list.len() - i,
    {
        assert(all[i as int] == list@[i as int]@);
        if list[i] == *text {
            return true;
        }
        i = i + 1;
    }
    false
}

/// The categories that occur, each once.
fn list_categories<F>(fixtures: &Vec<LoadedFixture<F>>) -> (list: Vec<String>)
    ensures
        texts(list@) == categories_of(measures(fixtures@)),
{
    let ghost all = measures(fixtures@);
    let mut list: Vec<String> = Vec::new();
    let mut i: usize = 0;
    assert(texts(list@) =~= categories_of(all.take(0)));
    while i < fixtures.len()
        invariant
            i <= fixtures.len(),
            all == measures(fixtures@),
            texts(list@) == categories_of(all.take(i as int)),
        decreases fixtures.len() - i,
    {
        let category: String = fixtures[i].category.to_owned();
        assert(all.take(i + 1).drop_last() =~= all.take(i as int));
        if !is_listed(&list, &category) {
            let ghost before = list@;
            list.push(category);
            assert(texts(list@) =~= texts(before).push(category@));
        }
        i = i + 1;
    }
    assert(all.take(fixtures.len() as int) =~= all);
    list
}

/// The statistics of one category.
fn category_stats<F>(fixtures: &Vec<LoadedFixture<F>>, category: &String) -> (stats: CategoryStats)
    ensures
        stats.describes(measures(fixtures@), category@),
{
    let ghost all = measures(fixtures@);
    let mut size: u128 = 0;
    let mut indices: Vec<usize> = Vec::new();
    let mut i: usize = 0;
    assert(indices@.map_values(|i: usize| i as int) =~= indices_of(all.take(0), category@));
    while i < fixtures.len()
        invariant
            i <= fixtures.len(),
            all == measures(fixtures@),
            size == category_size(all.take(i as int), category@),
            indices@.map_values(|i: usize| i as int) == indices_of(all.take(i as int), category@),
        decreases fixtures.len() - i,
    {
        proof {
            sizes_fit(fixtures@, i + 1, category@);
            assert(all.take(i + 1).drop_last() =~= all.take(i as int));
        }
        if fixtures[i].category.to_owned() == *category {
            size = size + fixtures[i].raw_size as u128;
            let ghost before = indices@;
            indices.push(i);
            assert(indices@.map_values(|i: usize| i as int) =~= before.map_values(
                |i: usize| i as int,
            ).push(i as int));
        }
        i = i + 1;
    }
    assert(all.take(fixtures.len() as int) =~= all);
    let count: usize = indices.len();
    CategoryStats {
        category: category.clone(),
        count,
        avg_size: Ratio::of(size, count as u128),
        indices,
    }
}

/// The statistics of the loaded fixtures.
pub fn fixture_info<F>(fixtures: &Vec<LoadedFixture<F>>) -> (info: InfoResponse)
    ensures
        info.fixture_count == fixtures@.len(),
        info.total_size == total_size(measures(fixtures@)),
        (info.avg_size.numerator as nat, info.avg_size.denominator as nat) == Ratio::of_parts(
            total_size(measures(fixtures@)),
            fixtures@.len(),
        ),
        info.categories@.len() == categories_of(measures(fixtures@)).len(),
        forall|k: int|
            0 <= k < info.categories@.len() ==> (#[trigger] info.categories@[k]).describes(
                measures(fixtures@),
                categories_of(measures(fixtures@))[k],
            ),
{
    let total: u128 = sum_sizes(fixtures);
    let names = list_categories(fixtures);
    let ghost seen = categories_of(measures(fixtures@));
    let mut categories: Vec<CategoryStats> = Vec::new();
    let mut k: usize = 0;
    while k < names.len()
        invariant
            k <= names.len(),
            texts(names@) == seen,
            categories@.len() == k,
            forall|j: int|
                0 <= j < k ==> (#[trigger] categories@[j]).describes(measures(fixtures@), seen[j]),
        decreases names.len() - k,
    {
        assert(seen[k as int] == names@[k as int]@);
        categories.push(category_stats(fixtures, &names[k]));
        k = k + 1;
    }
    InfoResponse {
        fixture_count: fixtures.len(),
        total_size: total,
        avg_size: Ratio::of(total, fixtures.len() as u128),
        categories,
    }
}

/// The fixtures of some categories, counted category by category.
pub open spec fn count_by_category(
    measures: Seq<(Seq<char>, nat)>,
    categories: Seq<Seq<char>>,
) -> nat
    decreases categories.len(),
{
    if categories.len() == 0 {
        0
    } else {
        count_by_category(measures, categories.drop_last()) + indices_of(
            measures,
            categories.last(),
        ).len()
    }
}

/// The size of the fixtures of some categories, added up category by category.
pub open spec fn size_by_category(
    measures: Seq<(Seq<char>, nat)>,
    categories: Seq<Seq<char>>,
) -> nat
    decreases categories.len(),
{
    if categories.len() == 0 {
        0
    } else {
        size_by_category(measures, categories.drop_last()) + category_size(
            measures,
            categories.last(),
        )
    }
}

/// The categories that are listed are those that occur, and each is listed once.
pub proof fn each_category_is_listed_once(measures: Seq<(Seq<char>, nat)>)
    ensures
        categories_of(measures).no_duplicates(),
        forall|category: Seq<char>|
            #[trigger] categories_of(measures).contains(category) <==> exists|i: int|
                0 <= i < measures.len() && (#[trigger] measures[i]).0 == category,
    decreases measures.len(),
{
    if measures.len() > 0 {
        let rest = measures.drop_last();
        let before = categories_of(rest);
        let last = measures.last().0;
        each_category_is_listed_once(rest);
        assert forall|category: Seq<char>| #[trigger]
            categories_of(measures).contains(category) <==> exists|i: int|
                0 <= i < measures.len() && (#[trigger] measures[i]).0 == category by {
            if categories_of(measures).contains(category) {
                if before.contains(category) {
                    let i = choose|i: int| 0 <= i < rest.len() && (#[trigger] rest[i]).0 == category;
                    assert(measures[i].0 == category);
                } else {
                    let k = choose|k: int|
                        0 <= k < categories_of(measures).len() && categories_of(measures)[k]
                            == category;
                    assert(k == before.len() || before[k] == category);
                    assert(category == last);
                    assert(measures[measures.len() - 1].0 == category);
                }
            }
            if exists|i: int| 0 <= i < measures.len() && (#[trigger] measures[i]).0 == category {
                let i = choose|i: int|
                    0 <= i < measures.len() && (#[trigger] measures[i]).0 == category;
                if i < rest.len() {
                    assert(rest[i].0 == category);
                    assert(before.contains(category));
                    let k = choose|k: int| 0 <= k < before.len() && before[k] == category;
                    assert(categories_of(measures)[k] == category);
                } else {
                    assert(category == last);
                    if !before.contains(last) {
                        assert(categories_of(measures)[before.len() as int] == category);
                    }
                }
            }
        }
    }
}

/// The indices of a category ascend, and they are those of the fixtures in it, so that each fixture
/// is in its own category and in no other.
pub proof fn indices_are_of_the_category(measures: Seq<(Seq<char>, nat)>, category: Seq<char>)
    ensures
        forall|k: int, l: int|
            0 <= k < l < indices_of(measures, category).len() ==> #[trigger] indices_of(
                measures,
                category,
            )[k] < #[trigger] indices_of(measures, category)[l],
        forall|i: int| #[trigger]
            indices_of(measures, category).contains(i) <==> 0 <= i < measures.len()
                && measures[i].0 == category,
    decreases measures.len(),
{
    if measures.len() > 0 {
        let rest = measures.drop_last();
        let before = indices_of(rest, category);
        let now = indices_of(measures, category);
        let last = measures.len() - 1;
        indices_are_of_the_category(rest, category);
        assert forall|k: int| 0 <= k < before.len() implies 0 <= #[trigger] before[k] < last by {
            assert(before.contains(before[k]));
        }
        assert forall|i: int| #[trigger] now.contains(i) <==> 0 <= i < measures.len()
            && measures[i].0 == category by {
            if now.contains(i) {
                let k = choose|k: int| 0 <= k < now.len() && now[k] == i;
                if k < before.len() {
                    assert(before[k] == i);
                    assert(before.contains(i));
                    assert(rest[i] == measures[i]);
                }
            }
            if 0 <= i < measures.len() && measures[i].0 == category {
                if i < last {
                    assert(rest[i] == measures[i]);
                    assert(before.contains(i));
                    let k = choose|k: int| 0 <= k < before.len() && before[k] == i;
                    assert(now[k] == i);
                } else {
                    assert(now[before.len() as int] == i);
                }
            }
        }
    }
}

/// One more fixture counts in its own category alone.
proof fn last_counts_once(measures: Seq<(Seq<char>, nat)>, categories: Seq<Seq<char>>)
    requires
        measures.len() > 0,
        categories.no_duplicates(),
    ensures
        count_by_category(measures, categories) == count_by_category(
            measures.drop_last(),
            categories,
        ) + if categories.contains(measures.last().0) {
            1nat
        } else {
            0nat
        },
        size_by_category(measures, categories) == size_by_category(
            measures.drop_last(),
            categories,
        ) + if categories.contains(measures.last().0) {
            measures.last().1
        } else {
            0nat
        },
    decreases categories.len(),
{
    if categories.len() > 0 {
        let rest = categories.drop_last();
        let category = measures.last().0;
        assert(rest.no_duplicates());
        last_counts_once(measures, rest);
        if rest.contains(category) {
            let k = choose|k: int| 0 <= k < rest.len() && rest[k] == category;
            assert(categories[k] == category);
            assert(categories.contains(category));
            assert(categories.last() != category);
        } else if categories.contains(category) {
            let k = choose|k: int| 0 <= k < categories.len() && categories[k] == category;
            if k < rest.len() {
                assert(rest[k] == category);
            }
            assert(categories.last() == category);
        } else {
            assert(categories[categories.len() - 1] != category);
        }
    }
}

/// Where there are no fixtures, no category has any.
proof fn nothing_counts_nothing(categories: Seq<Seq<char>>)
    ensures
        count_by_category(Seq::empty(), categories) == 0,
        size_by_category(Seq::empty(), categories) == 0,
    decreases categories.len(),
{
    if categories.len() > 0 {
        nothing_counts_nothing(categories.drop_last());
    }
}

proof fn categories_cover_part(
    measures: Seq<(Seq<char>, nat)>,
    categories: Seq<Seq<char>>,
)
    requires
        categories.no_duplicates(),
        forall|i: int| 0 <= i < measures.len() ==> categories.contains((#[trigger] measures[i]).0),
    ensures
        count_by_category(measures, categories) == measures.len(),
        size_by_category(measures, categories) == total_size(measures),
    decreases measures.len(),
{
    if measures.len() == 0 {
        assert(measures =~= Seq::empty());
        nothing_counts_nothing(categories);
    } else {
        let rest = measures.drop_last();
        assert forall|i: int| 0 <= i < rest.len() implies categories.contains(
            (#[trigger] rest[i]).0,
        ) by {
            assert(rest[i] == measures[i]);
        }
        categories_cover_part(rest, categories);
        last_counts_once(measures, categories);
        assert(measures[measures.len() - 1] == measures.last());
    }
}

/// The categories make up the whole: their counts add up to the number of fixtures, and their sizes
/// to the total size.
pub proof fn categories_make_up_the_whole(measures: Seq<(Seq<char>, nat)>)
    ensures
        count_by_category(measures, categories_of(measures)) == measures.len(),
        size_by_category(measures, categories_of(measures)) == total_size(measures),
{
    each_category_is_listed_once(measures);
    assert forall|i: int| 0 <= i < measures.len() implies categories_of(measures).contains(
        (#[trigger] measures[i]).0,
    ) by {}
    categories_cover_part(measures, categories_of(measures));
}

/// One fixture more adds its size to the whole, and to its own category alone; and it brings its
/// category, behind the others, if that was not there yet.
pub proof fn one_fixture_more(
    measures: Seq<(Seq<char>, nat)>,
    next: (Seq<char>, nat),
    category: Seq<char>,
)
    ensures
        total_size(Seq::empty()) == 0,
        total_size(measures.push(next)) == total_size(measures) + next.1,
        category_size(Seq::empty(), category) == 0,
        category_size(measures.push(next), category) == category_size(measures, category)
            + if next.0 == category {
            next.1
        } else {
            0
        },
        categories_of(Seq::empty()) == Seq::<Seq<char>>::empty(),
        categories_of(measures.push(next)) == if categories_of(measures).contains(next.0) {
            categories_of(measures)
        } else {
            categories_of(measures).push(next.0)
        },
{
    assert(measures.push(next).drop_last() =~= measures);
}

/// What is measured of the fixtures is their category and the size of their file, one for one.
pub proof fn measures_are_of_the_fixtures<F>(fixtures: Seq<LoadedFixture<F>>)
    ensures
        measures(fixtures).len() == fixtures.len(),
        forall|i: int|
            0 <= i < fixtures.len() ==> (#[trigger] measures(fixtures)[i]).0 == fixtures[i].category@
                && measures(fixtures)[i].1 == fixtures[i].raw_size,
{
}

/// The sum of the sizes is that of all fixtures but the last, and the last one's size.
pub proof fn sizes_are_added_up<F>(
    fixtures: &Vec<LoadedFixture<F>>,
    rest: &Vec<LoadedFixture<F>>,
    total: u128,
    rest_total: u128,
)
    requires
        call_ensures(sum_sizes::<F>, (fixtures,), total),
        call_ensures(sum_sizes::<F>, (rest,), rest_total),
        fixtures@.len() > 0 ==> rest@ == fixtures@.drop_last(),
    ensures
        fixtures@.len() == 0 ==> total == 0,
        fixtures@.len() > 0 ==> total == rest_total + fixtures@.last().raw_size,
{
    if fixtures@.len() > 0 {
        assert(measures(fixtures@).drop_last() =~= measures(rest@));
    }
}

/// The statistics count all fixtures and add up their sizes, and the average is that sum by that
/// count. Every fixture's category is listed, once; a category that is listed has the indices of
/// exactly the fixtures in it, from the first on, their count, and as its average the sum of their
/// sizes by that count. Where there are no fixtures, the average is 0 and no category is listed.
pub proof fn statistics_are_of_the_fixtures<F>(
    fixtures: &Vec<LoadedFixture<F>>,
    info: InfoResponse,
    total: u128,
)
    requires
        call_ensures(fixture_info::<F>, (fixtures,), info),
        call_ensures(sum_sizes::<F>, (fixtures,), total),
    ensures
        info.fixture_count == fixtures@.len(),
        info.total_size == total,
        fixtures@.len() > 0 ==> info.avg_size.numerator == total && info.avg_size.denominator
            == fixtures@.len(),
        fixtures@.len() == 0 ==> info.avg_size.numerator == 0 && info.avg_size.denominator == 1
            && info.categories@.len() == 0,
        forall|i: int|
            0 <= i < fixtures@.len() ==> exists|k: int|
                0 <= k < info.categories@.len() && (#[trigger] info.categories@[k]).category@ == (
                #[trigger] fixtures@[i]).category@,
        forall|k: int, l: int|
            0 <= k < l < info.categories@.len() ==> (#[trigger] info.categories@[k]).category@ != (
            #[trigger] info.categories@[l]).category@,
        forall|k: int|
            0 <= k < info.categories@.len() ==> {
                let stats = #[trigger] info.categories@[k];
                &&& stats.count == stats.indices@.len()
                &&& stats.count > 0
                &&& forall|i: usize| #[trigger]
                    stats.indices@.contains(i) <==> i < fixtures@.len()
                        && fixtures@[i as int].category@ == stats.category@
                &&& forall|x: int, y: int|
                    0 <= x < y < stats.indices@.len() ==> #[trigger] stats.indices@[x]
                        < #[trigger] stats.indices@[y]
                &&& stats.avg_size.numerator == category_size(
                    measures(fixtures@),
                    stats.category@,
                )
                &&& stats.avg_size.denominator == stats.count
            },
{
    let all = measures(fixtures@);
    let seen = categories_of(all);
    assert(fixtures@.len() == fixtures.len());
    each_category_is_listed_once(all);
    assert forall|i: int| 0 <= i < fixtures@.len() implies exists|k: int|
        0 <= k < info.categories@.len() && (#[trigger] info.categories@[k]).category@ == (
        #[trigger] fixtures@[i]).category@ by {
        assert(all[i].0 == fixtures@[i].category@);
        assert(seen.contains(fixtures@[i].category@));
        let k = choose|k: int| 0 <= k < seen.len() && seen[k] == fixtures@[i].category@;
        assert(info.categories@[k].describes(all, seen[k]));
    }
    assert forall|k: int, l: int| 0 <= k < l < info.categories@.len() implies (
    #[trigger] info.categories@[k]).category@ != (#[trigger] info.categories@[l]).category@ by {
        assert(info.categories@[k].describes(all, seen[k]));
        assert(info.categories@[l].describes(all, seen[l]));
    }
    assert forall|k: int| 0 <= k < info.categories@.len() implies {
        let stats = #[trigger] info.categories@[k];
        &&& stats.count == stats.indices@.len()
        &&& stats.count > 0
        &&& forall|i: usize| #[trigger]
            stats.indices@.contains(i) <==> i < fixtures@.len() && fixtures@[i as int].category@
                == stats.category@
        &&& forall|x: int, y: int|
            0 <= x < y < stats.indices@.len() ==> #[trigger] stats.indices@[x]
                < #[trigger] stats.indices@[y]
        &&& stats.avg_size.numerator == category_size(measures(fixtures@), stats.category@)
        &&& stats.avg_size.denominator == stats.count
    } by {
        let stats = info.categories@[k];
        assert(stats.describes(all, seen[k]));
        stats_are_of_the_category(fixtures@, stats, seen[k]);
    }
}

proof fn stats_are_of_the_category<F>(
    fixtures: Seq<LoadedFixture<F>>,
    stats: CategoryStats,
    category: Seq<char>,
)
    requires
        stats.describes(measures(fixtures), category),
        categories_of(measures(fixtures)).contains(category),
        fixtures.len() <= usize::MAX,
    ensures
        stats.category@ == category,
        stats.count == stats.indices@.len(),
        stats.count > 0,
        forall|i: usize| #[trigger]
            stats.indices@.contains(i) <==> i < fixtures.len() && fixtures[i as int].category@
                == category,
        forall|x: int, y: int|
            0 <= x < y < stats.indices@.len() ==> #[trigger] stats.indices@[x]
                < #[trigger] stats.indices@[y],
        stats.avg_size.numerator == category_size(measures(fixtures), category),
        stats.avg_size.denominator == stats.count,
{
    let all = measures(fixtures);
    let indices = stats.indices@;
    let found = indices_of(all, category);
    assert(indices.map_values(|i: usize| i as int) == found);
    assert(indices.len() == found.len());
    each_category_is_listed_once(all);
    indices_are_of_the_category(all, category);
    assert forall|x: int| 0 <= x < indices.len() implies found[x] == #[trigger] indices[x] by {
        assert(indices.map_values(|i: usize| i as int)[x] == indices[x] as int);
    }
    assert forall|i: usize| #[trigger]
        indices.contains(i) <==> i < fixtures.len() && fixtures[i as int].category@ == category by {
        if indices.contains(i) {
            let x = choose|x: int| 0 <= x < indices.len() && indices[x] == i;
            assert(found[x] == indices[x]);
            assert(found.contains(i as int));
        }
        if i < fixtures.len() && fixtures[i as int].category@ == category {
            assert(all[i as int].0 == category);
            assert(found.contains(i as int));
            let x = choose|x: int| 0 <= x < found.len() && found[x] == i as int;
            assert(indices[x] == i);
        }
    }
    assert forall|x: int, y: int| 0 <= x < y < indices.len() implies #[trigger] indices[x]
        < #[trigger] indices[y] by {
        assert(found[x] < found[y]);
    }
    let i = choose|i: int| 0 <= i < all.len() && (#[trigger] all[i]).0 == category;
    assert(found.contains(i));
}

} // verus!
