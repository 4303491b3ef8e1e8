//! The order in which the answers of a population reach the coordinator.

use vstd::prelude::*;
use vstd::relations::sorted_by;
use crate::order::{lemma_ranked, rank_order, ranked};
use crate::params::CostModel;
use crate::validator::{Arrival, ValidatorView};

verus! {

/// The answers that are under way once every validator has been asked, in
/// the order in which the validators were asked. Offline validators send
/// none.
pub open spec fn arrivals(population: Seq<ValidatorView>, costs: CostModel) -> Seq<Arrival>
    decreases population.len(),
{
    if population.len() == 0 {
        Seq::empty()
    } else {
        let earlier = arrivals(population.drop_last(), costs);
        if population.last().is_responsive() {
            earlier.push(population.last().arrival(costs))
        } else {
            earlier
        }
    }
}

/// The answers in the order in which they reach the coordinator: by time of
/// arrival, and of two that arrive together, the one from the validator that
/// was asked first.
pub open spec fn arrival_order(population: Seq<ValidatorView>, costs: CostModel) -> Seq<Arrival> {
    ranked(arrivals(population, costs))
}

/// Each validator's identity is its position in the population.
pub open spec fn ids_in_place(population: Seq<ValidatorView>) -> bool {
    forall|i: int| 0 <= i < population.len() ==> (#[trigger] population[i]).id == i
}

/// Every validator answers.
pub open spec fn all_responsive(population: Seq<ValidatorView>) -> bool {
    forall|i: int| 0 <= i < population.len() ==> (#[trigger] population[i]).is_responsive()
}

/// `a` is the answer of a validator of the population that is not offline.
pub open spec fn is_answer_of(
    population: Seq<ValidatorView>,
    costs: CostModel,
    a: Arrival,
) -> bool {
    &&& 0 <= a.validator < population.len()
    &&& population[a.validator as int].is_responsive()
    &&& a == population[a.validator as int].arrival(costs)
}

/// The answers under way are those of the validators that are not offline,
/// one each, by rising identity.
pub proof fn lemma_arrivals(population: Seq<ValidatorView>, costs: CostModel)
    requires
        ids_in_place(population),
    ensures
        arrivals(population, costs).len() <= population.len(),
        all_responsive(population) ==> arrivals(population, costs).len() == population.len(),
        forall|j: int|
            0 <= j < arrivals(population, costs).len() ==> is_answer_of(
                population,
                costs,
                #[trigger] arrivals(population, costs)[j],
            ),
        forall|i: int|
            0 <= i < population.len() && (#[trigger] population[i]).is_responsive()
                ==> arrivals(population, costs).contains(population[i].arrival(costs)),
        forall|j: int, k: int|
            0 <= j < k < arrivals(population, costs).len() ==> (#[trigger] arrivals(
                population,
                costs,
            )[j]).validator < (#[trigger] arrivals(population, costs)[k]).validator,
    decreases population.len(),
{
    if population.len() > 0 {
        let rest = population.drop_last();
        let last = population.last();
        let earlier = arrivals(rest, costs);
        let all = arrivals(population, costs);
        assert(ids_in_place(rest)) by {
            assert forall|i: int| 0 <= i < rest.len() implies (#[trigger] rest[i]).id == i by {
                assert(rest[i] == population[i]);
            }
        }
        if all_responsive(population) {
            assert(all_responsive(rest)) by {
                assert forall|i: int| 0 <= i < rest.len() implies (
                #[trigger] rest[i]).is_responsive() by {
                    assert(rest[i] == population[i]);
                }
            }
            assert(last.is_responsive());
        }
        lemma_arrivals(rest, costs);
        assert forall|j: int| 0 <= j < all.len() implies is_answer_of(
            population,
            costs,
            #[trigger] all[j],
        ) by {
            if j < earlier.len() {
                assert(all[j] == earlier[j]);
                assert(is_answer_of(rest, costs, earlier[j]));
                let v = earlier[j].validator as int;
                assert(rest[v] == population[v]);
            } else {
                assert(all[j] == last.arrival(costs));
            }
        }
        assert forall|i: int|
            0 <= i < population.len() && (
            #[trigger] population[i]).is_responsive() implies all.contains(
            population[i].arrival(costs),
        ) by {
            if i < rest.len() {
                assert(rest[i] == population[i]);
                assert(rest[i].is_responsive());
                assert(earlier.contains(rest[i].arrival(costs)));
                let j = choose|j: int|
                    0 <= j < earlier.len() && earlier[j] == rest[i].arrival(costs);
                assert(all[j] == earlier[j]);
            } else {
                assert(all[all.len() - 1] == last.arrival(costs));
            }
        }
        assert forall|j: int, k: int| 0 <= j < k < all.len() implies (#[trigger] all[j]).validator
            < (#[trigger] all[k]).validator by {
            assert(all[j] == earlier[j]);
            assert(is_answer_of(rest, costs, earlier[j]));
            if k < earlier.len() {
                assert(all[k] == earlier[k]);
            } else {
                assert(all[k] == last.arrival(costs));
            }
        }
    }
}

/// The order of arrival holds the answers of the validators that are not
/// offline, one each, earliest first.
pub proof fn lemma_arrival_order(population: Seq<ValidatorView>, costs: CostModel)
    requires
        ids_in_place(population),
    ensures
        arrival_order(population, costs).len() == arrivals(population, costs).len(),
        arrival_order(population, costs).len() <= population.len(),
        all_responsive(population) ==> arrival_order(population, costs).len() == population.len(),
        sorted_by(arrival_order(population, costs), rank_order::<Arrival>()),
        forall|j: int|
            0 <= j < arrival_order(population, costs).len() ==> is_answer_of(
                population,
                costs,
                #[trigger] arrival_order(population, costs)[j],
            ),
        forall|i: int|
            0 <= i < population.len() && (#[trigger] population[i]).is_responsive()
                ==> arrival_order(population, costs).contains(population[i].arrival(costs)),
        forall|j: int, k: int|
            0 <= j < arrival_order(population, costs).len() && 0 <= k < arrival_order(
                population,
                costs,
            ).len() && j != k ==> (#[trigger] arrival_order(population, costs)[j]).validator != (
            #[trigger] arrival_order(population, costs)[k]).validator,
{
    let sent = arrivals(population, costs);
    let order = arrival_order(population, costs);
    lemma_arrivals(population, costs);
    lemma_ranked(sent);
    assert forall|j: int| 0 <= j < order.len() implies is_answer_of(
        population,
        costs,
        #[trigger] order[j],
    ) by {
        assert(order.contains(order[j]));
        assert(sent.contains(order[j]));
        let k = choose|k: int| 0 <= k < sent.len() && sent[k] == order[j];
        assert(is_answer_of(population, costs, sent[k]));
    }
    assert(sent.no_duplicates()) by {
        assert forall|j: int, k: int|
            0 <= j < sent.len() && 0 <= k < sent.len() && j != k implies sent[j] != sent[k] by {
            if j < k {
                assert(sent[j].validator < sent[k].validator);
            } else {
                assert(sent[k].validator < sent[j].validator);
            }
        }
    }
    sent.lemma_multiset_has_no_duplicates();
    order.lemma_multiset_has_no_duplicates_conv();
    assert forall|j: int, k: int|
        0 <= j < order.len() && 0 <= k < order.len() && j != k implies (
    #[trigger] order[j]).validator != (#[trigger] order[k]).validator by {
        assert(is_answer_of(population, costs, order[j]));
        assert(is_answer_of(population, costs, order[k]));
        assert(order[j] != order[k]);
    }
}

} // verus!
