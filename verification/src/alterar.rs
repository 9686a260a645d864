//! Transformacoes puras de uma sequencia de taxas: mudanca de
//! periodicidade por fator inteiro e agravamento por um fator nao negativo.

use crate::tabua_base::taxas_validas;
use crate::taxa::{
    complemento, lei_raiz_da_potencia, potencia, potencia_espec, raiz, raiz_espec, valores,
    produto_espec, Taxa, MEIO, UM,
};
use vstd::arithmetic::div_mod::*;
use vstd::arithmetic::mul::*;
use vstd::prelude::*;

verus! {

/// Taxa equivalente quando um periodo e partido em `fator` subperiodos:
/// o complemento e elevado ao fator.
pub open spec fn taxa_elevada_espec(q: int, fator: nat) -> int {
    (UM as int) - potencia_espec((UM as int) - q, fator)
}

/// Taxa equivalente quando `fator` periodos fundem-se num so: o
/// complemento recebe a raiz de indice `fator`.
pub open spec fn taxa_reduzida_espec(q: int, fator: nat) -> int {
    (UM as int) - raiz_espec((UM as int) - q, fator)
}

/// Afinar a granularidade: cada taxa aparece `fator` vezes, transformada.
pub open spec fn aumentar_espec(ts: Seq<int>, fator: nat) -> Seq<int> {
    Seq::new(ts.len() * fator, |i: int| taxa_elevada_espec(ts[i / (fator as int)], fator))
}

/// Engrossar a granularidade: fica uma taxa em cada `fator`, transformada.
pub open spec fn reduzir_espec(ts: Seq<int>, fator: nat) -> Seq<int> {
    Seq::new(
        (((ts.len() + fator - 1) as int) / (fator as int)) as nat,
        |i: int| taxa_reduzida_espec(ts[i * (fator as int)], fator),
    )
}

/// Mudanca de periodicidade: identidade quando as granularidades
/// coincidem, senao o aumento ou a reducao pelo fator inteiro.
pub open spec fn alterar_espec(ts: Seq<int>, atual: int, nova: int) -> Seq<int> {
    if nova == atual {
        ts
    } else if nova > atual {
        aumentar_espec(ts, (nova / atual) as nat)
    } else {
        reduzir_espec(ts, (atual / nova) as nat)
    }
}

/// Uma taxa agravada: multiplicada pelo fator (em bilionesimos) e limitada
/// pela certeza; uma taxa ja igual a um nao muda.
pub open spec fn agravada_espec(q: int, fator: int) -> int {
    if q == UM {
        UM as int
    } else if (q * fator + MEIO) / (UM as int) > UM {
        UM as int
    } else {
        (q * fator + MEIO) / (UM as int)
    }
}

/// Agravamento de uma sequencia de taxas: cada taxa e agravada pelo
/// mesmo fator.
pub open spec fn agravar_espec(ts: Seq<int>, fator: int) -> Seq<int> {
    Seq::new(ts.len(), |i: int| agravada_espec(ts[i], fator))
}

/// Afinar a granularidade de uma sequencia de taxas: cada taxa e repetida
/// `fator` vezes, cada copia transformada por `q' = 1 - (1 - q)^fator`.
pub fn aumentar_periodicidade(x: Vec<Taxa>, fator: usize) -> (r: Vec<Taxa>)
    requires
        1 <= fator,
        x@.len() * fator <= usize::MAX,
    ensures
        valores(r@) == aumentar_espec(valores(x@), fator as nat),
{
    let ghost vx = valores(x@);
    let ghost alvo = aumentar_espec(vx, fator as nat);
    let mut r: Vec<Taxa> = Vec::new();
    let mut i: usize = 0;
    while i < x.len()
        invariant
            vx == valores(x@),
            alvo == aumentar_espec(vx, fator as nat),
            1 <= fator,
            x@.len() * fator <= usize::MAX,
            i <= x@.len(),
            r@.len() == i * fator,
            forall|j: int| 0 <= j < r@.len() ==> valores(r@)[j] == alvo[j],
        decreases x@.len() - i,
    {
        let q = x[i];
        let t = complemento(potencia(complemento(q), fator as u64));
        proof {
            assert(vx[i as int] == x@[i as int].ver());
            lemma_mul_inequality(i as int + 1, x@.len() as int, fator as int);
        }
        let mut c: usize = 0;
        while c < fator
            invariant
                vx == valores(x@),
                alvo == aumentar_espec(vx, fator as nat),
                1 <= fator,
                c <= fator,
                i < x@.len(),
                (i + 1) * fator <= x@.len() * fator <= usize::MAX,
                t.ver() == taxa_elevada_espec(vx[i as int], fator as nat),
                r@.len() == i * fator + c,
                forall|j: int| 0 <= j < r@.len() ==> valores(r@)[j] == alvo[j],
            decreases fator - c,
        {
            proof {
                lemma_mul_is_distributive_add_other_way(fator as int, i as int, 1);
                assert((fator as int) * (i as int) + c < alvo.len()) by {
                    lemma_mul_is_commutative(i as int, fator as int);
                    lemma_mul_is_commutative(i as int + 1, fator as int);
                }
                lemma_div_multiples_vanish_fancy(i as int, c as int, fator as int);
                lemma_mul_is_commutative(i as int, fator as int);
            }
            r.push(t);
            c = c + 1;
        }
        proof {
            assert((i as int + 1) * (fator as int) == i as int * (fator as int) + fator as int)
                by (nonlinear_arith);
        }
        i = i + 1;
    }
    proof {
        assert(valores(r@) =~= alvo);
    }
    r
}

/// Engrossar a granularidade de uma sequencia de taxas: fica uma taxa em
/// cada `fator`, transformada por `q' = 1 - (1 - q)^(1/fator)`.
pub fn reduzir_periodicidade(x: Vec<Taxa>, fator: usize) -> (r: Vec<Taxa>)
    requires
        1 <= fator,
        x@.len() + fator <= usize::MAX,
    ensures
        valores(r@) == reduzir_espec(valores(x@), fator as nat),
{
    let ghost vx = valores(x@);
    let ghost alvo = reduzir_espec(vx, fator as nat);
    let mut r: Vec<Taxa> = Vec::new();
    let mut i: usize = 0;
    proof {
        assert(0int * (fator as int) == 0) by (nonlinear_arith);
    }
    while i < x.len()
        invariant
            vx == valores(x@),
            alvo == reduzir_espec(vx, fator as nat),
            1 <= fator,
            x@.len() + fator <= usize::MAX,
            i == r@.len() * fator,
            i < x@.len() + fator,
            forall|j: int| 0 <= j < r@.len() ==> valores(r@)[j] == alvo[j],
        decreases x@.len() + fator - i,
    {
        let q = x[i];
        let t = complemento(raiz(complemento(q), fator as u64));
        proof {
            assert(vx[i as int] == x@[i as int].ver());
            let c = r@.len() as int;
            assert((c + 1) * (fator as int) == c * (fator as int) + fator) by {
                lemma_mul_is_distributive_add_other_way(fator as int, c, 1);
                lemma_mul_is_commutative(c, fator as int);
                lemma_mul_is_commutative(c + 1, fator as int);
            }
            assert(c < alvo.len()) by {
                assert((c + 1) * (fator as int) <= vx.len() + fator - 1);
                lemma_div_is_ordered(
                    (c + 1) * (fator as int),
                    (vx.len() + fator - 1) as int,
                    fator as int,
                );
                lemma_div_multiples_vanish(c + 1, fator as int);
                lemma_mul_is_commutative(c + 1, fator as int);
            }
        }
        r.push(t);
        i = i + fator;
    }
    proof {
        let c = r@.len() as int;
        let f = fator as int;
        let resto = vx.len() + f - 1 - c * f;
        assert(vx.len() <= c * f < vx.len() + f);
        assert(0 <= resto < f);
        lemma_div_multiples_vanish_fancy(c, resto, f);
        lemma_mul_is_commutative(c, f);
        assert(f * c + resto == vx.len() + f - 1);
        assert(c == alvo.len());
        assert(valores(r@) =~= alvo);
    }
    r
}

/// Mudanca de periodicidade de uma sequencia de taxas: a granularidade
/// so muda por fator inteiro; igualdade de granularidades e a identidade.
pub fn alterar_periodicidade(
    qx: Vec<Taxa>,
    periodicidade_atual: usize,
    nova_periodicidade: usize,
) -> (r: Vec<Taxa>)
    requires
        1 <= periodicidade_atual,
        1 <= nova_periodicidade,
        nova_periodicidade > periodicidade_atual ==> nova_periodicidade % periodicidade_atual
            == 0 && qx@.len() * (nova_periodicidade as int / periodicidade_atual as int)
            <= usize::MAX,
        nova_periodicidade < periodicidade_atual ==> periodicidade_atual % nova_periodicidade
            == 0 && qx@.len() + (periodicidade_atual as int / nova_periodicidade as int)
            <= usize::MAX,
    ensures
        valores(r@) == alterar_espec(
            valores(qx@),
            periodicidade_atual as int,
            nova_periodicidade as int,
        ),
{
    if nova_periodicidade == periodicidade_atual {
        qx
    } else if nova_periodicidade > periodicidade_atual {
        let fator = nova_periodicidade / periodicidade_atual;
        proof {
            lemma_div_is_ordered(
                periodicidade_atual as int,
                nova_periodicidade as int,
                periodicidade_atual as int,
            );
            lemma_div_by_self(periodicidade_atual as int);
        }
        aumentar_periodicidade(qx, fator)
    } else {
        let fator = periodicidade_atual / nova_periodicidade;
        proof {
            lemma_div_is_ordered(
                nova_periodicidade as int,
                periodicidade_atual as int,
                nova_periodicidade as int,
            );
            lemma_div_by_self(nova_periodicidade as int);
        }
        reduzir_periodicidade(qx, fator)
    }
}

/// Agrava cada taxa pelo fator dado em bilionesimos: o produto e limitado
/// pela certeza e uma taxa ja certa nao muda; em particular o fator zero
/// anula toda taxa abaixo da certeza.
pub fn agravar_qx(qx: Vec<Taxa>, fator: u64) -> (r: Vec<Taxa>)
    ensures
        valores(r@) == agravar_espec(valores(qx@), fator as int),
{
    let ghost vx = valores(qx@);
    let ghost alvo = agravar_espec(vx, fator as int);
    let mut r: Vec<Taxa> = Vec::new();
    let mut i: usize = 0;
    while i < qx.len()
        invariant
            vx == valores(qx@),
            alvo == agravar_espec(vx, fator as int),
            i <= qx@.len(),
            r@.len() == i,
            forall|j: int| 0 <= j < i ==> valores(r@)[j] == alvo[j],
        decreases qx@.len() - i,
    {
        let q = qx[i];
        q.limites();
        proof {
            assert(vx[i as int] == qx@[i as int].ver());
        }
        if q.valor() == UM {
            r.push(q);
        } else {
            proof {
                lemma_mul_nonnegative(q.ver(), fator as int);
                lemma_mul_upper_bound(q.ver(), UM as int, fator as int, u64::MAX as int);
                lemma_div_pos_is_pos(q.ver() * fator + MEIO, UM as int);
            }
            let p: u128 = (q.valor() as u128) * (fator as u128) + (MEIO as u128);
            let v: u128 = p / (UM as u128);
            if v > UM as u128 {
                r.push(Taxa::nova(UM));
            } else {
                r.push(Taxa::nova(v as u64));
            }
        }
        i = i + 1;
    }
    proof {
        assert(valores(r@) =~= alvo);
    }
    r
}

/// Lei da ida e volta: afinar a periodicidade por um fator inteiro e
/// engrossa-la de novo pelo mesmo fator devolve uma sequencia do mesmo
/// comprimento, em que cada taxa nao excede a original e compoe, pela
/// potencia do complemento, exatamente a mesma sobrevivencia de periodo
/// cheio que a taxa original.
pub proof fn lei_ida_e_volta(ts: Seq<int>, fator: nat)
    requires
        1 <= fator,
        taxas_validas(ts),
    ensures
        reduzir_espec(aumentar_espec(ts, fator), fator).len() == ts.len(),
        forall|i: int| 0 <= i < ts.len() ==> #[trigger] reduzir_espec(
            aumentar_espec(ts, fator),
            fator,
        )[i] <= ts[i],
        forall|i: int| 0 <= i < ts.len() ==> potencia_espec(
            (UM as int) - #[trigger] reduzir_espec(aumentar_espec(ts, fator), fator)[i],
            fator,
        ) == potencia_espec((UM as int) - ts[i], fator),
{
    let ida = aumentar_espec(ts, fator);
    let volta = reduzir_espec(ida, fator);
    let f = fator as int;
    let n = ts.len() as int;
    assert(volta.len() == ts.len()) by {
        assert(ida.len() == n * f);
        assert((n * f + f - 1) / f == n) by {
            lemma_div_multiples_vanish_fancy(n, f - 1, f);
            lemma_mul_is_commutative(n, f);
        }
    }
    assert forall|i: int| 0 <= i < ts.len() implies {
        &&& #[trigger] volta[i] <= ts[i]
        &&& potencia_espec((UM as int) - volta[i], fator) == potencia_espec(
            (UM as int) - ts[i],
            fator,
        )
    } by {
        assert(ida.len() == n * f);
        assert(0 <= i * f < n * f) by {
            lemma_mul_nonnegative(i, f);
            lemma_mul_strict_inequality(i, n, f);
            lemma_mul_is_commutative(i, f);
            lemma_mul_is_commutative(n, f);
        }
        assert((i * f) / f == i) by {
            lemma_div_multiples_vanish_fancy(i, 0, f);
            lemma_mul_is_commutative(i, f);
        }
        assert(ida[i * f] == taxa_elevada_espec(ts[i], fator));
        let w = (UM as int) - ts[i];
        lei_raiz_da_potencia(w, fator);
        assert(volta[i] == (UM as int) - raiz_espec(potencia_espec(w, fator), fator));
    }
}

} // verus!
