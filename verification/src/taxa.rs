//! Probabilidades em ponto fixo.
//!
//! Uma taxa de decremento e uma fracao exata com denominador fixo `UM`
//! (bilionesimos). Toda a algebra de probabilidades da biblioteca --
//! produto, razao, potencia e raiz -- e feita sobre esses inteiros, com
//! arredondamento ao mais proximo declarado nos contratos.

use vstd::arithmetic::div_mod::*;
use vstd::arithmetic::mul::*;
use vstd::prelude::*;

verus! {

/// Denominador comum de todas as taxas: a certeza (probabilidade um)
/// corresponde a `UM` bilionesimos.
pub const UM: u64 = 1_000_000_000;

/// Metade do denominador, a parcela do arredondamento ao mais proximo.
pub const MEIO: u64 = 500_000_000;

/// Probabilidade de decremento em ponto fixo: `valor` bilionesimos,
/// sempre entre zero e `UM`.
#[derive(Clone, Copy, Debug, PartialEq, Eq, Structural)]
pub struct Taxa {
    valor: u64,
}

impl Taxa {
    #[verifier::type_invariant]
    spec fn no_intervalo(self) -> bool {
        self.valor <= UM
    }

    /// O valor da taxa em bilionesimos, como inteiro matematico.
    pub closed spec fn ver(self) -> int {
        self.valor as int
    }

    /// Constroi uma taxa a partir do numero de bilionesimos.
    pub fn nova(valor: u64) -> (r: Taxa)
        requires
            valor <= UM,
        ensures
            r.ver() == valor,
    {
        Taxa { valor }
    }

    /// O numero de bilionesimos guardado.
    pub fn valor(&self) -> (v: u64)
        ensures
            v == self.ver(),
    {
        self.valor
    }

    /// Toda taxa esta entre zero e um.
    pub fn limites(&self)
        ensures
            0 <= self.ver() <= UM,
    {
        proof {
            use_type_invariant(*self);
        }
    }
}

/// Os valores inteiros de uma sequencia de taxas.
pub open spec fn valores(s: Seq<Taxa>) -> Seq<int> {
    Seq::new(s.len(), |i: int| s[i].ver())
}

/// Produto de duas taxas, arredondado ao bilionesimo mais proximo.
pub open spec fn produto_espec(a: int, b: int) -> int {
    (a * b + MEIO) / (UM as int)
}

/// Soma de duas taxas, limitada superiormente pela certeza.
pub open spec fn soma_limitada_espec(a: int, b: int) -> int {
    if a + b > UM {
        UM as int
    } else {
        a + b
    }
}

/// Quociente `num/den` expresso em bilionesimos, arredondado ao mais
/// proximo (den > 0).
pub open spec fn razao_espec(num: int, den: int) -> int {
    (num * (UM as int) + den / 2) / den
}

/// Potencia de expoente natural de uma taxa, pelo produto iterado.
pub open spec fn potencia_espec(v: int, k: nat) -> int
    decreases k,
{
    if k == 0 {
        UM as int
    } else {
        produto_espec(v, potencia_espec(v, (k - 1) as nat))
    }
}

/// Maior `r <= m` cuja potencia `k` nao passa de `v` (zero se nenhum).
pub open spec fn raiz_busca(v: int, k: nat, m: nat) -> int
    decreases m,
{
    if m == 0 {
        0int
    } else if potencia_espec(m as int, k) <= v {
        m as int
    } else {
        raiz_busca(v, k, (m - 1) as nat)
    }
}

/// Raiz `k`-esima de uma taxa: a maior taxa cuja potencia `k` nao
/// excede `v`.
pub open spec fn raiz_espec(v: int, k: nat) -> int {
    raiz_busca(v, k, UM as nat)
}

/// O produto de taxas validas e uma taxa valida, nunca maior que os
/// fatores; e o produto nao passa de `UM * UM` antes da divisao.
pub proof fn lei_produto_limites(a: int, b: int)
    requires
        0 <= a <= UM,
        0 <= b <= UM,
    ensures
        0 <= produto_espec(a, b) <= UM,
        produto_espec(a, b) <= a,
        produto_espec(a, b) <= b,
        a * b <= UM * UM,
{
    lemma_mul_nonnegative(a, b);
    lemma_div_pos_is_pos(a * b + MEIO, UM as int);
    lemma_mul_upper_bound(a, UM as int, b, UM as int);
    assert(a * b <= a * (UM as int)) by {
        if a > 0 {
            lemma_mul_left_inequality(a, b, UM as int);
        } else {
            lemma_mul_basics(b);
            lemma_mul_basics(UM as int);
        }
    }
    assert(a * b <= b * (UM as int)) by {
        lemma_mul_is_commutative(a, b);
        lemma_mul_inequality(a, UM as int, b);
        lemma_mul_is_commutative(b, UM as int);
    }
    assert(produto_espec(a, b) <= a) by {
        assert(a * b + MEIO < (UM as int) * (a + 1)) by {
            lemma_mul_is_distributive_add(UM as int, a, 1);
            lemma_mul_basics(UM as int);
            lemma_mul_is_commutative(a, UM as int);
        }
        lemma_multiply_divide_lt(a * b + MEIO, UM as int, a + 1);
    }
    assert(produto_espec(a, b) <= b) by {
        assert(a * b + MEIO < (UM as int) * (b + 1)) by {
            lemma_mul_is_distributive_add(UM as int, b, 1);
            lemma_mul_basics(UM as int);
            lemma_mul_is_commutative(b, UM as int);
        }
        lemma_multiply_divide_lt(a * b + MEIO, UM as int, b + 1);
    }
}

/// Multiplicar pela certeza devolve a propria taxa.
pub proof fn lei_produto_um(a: int)
    requires
        0 <= a <= UM,
    ensures
        produto_espec(a, UM as int) == a,
        produto_espec(UM as int, a) == a,
{
    lemma_mul_is_commutative(a, UM as int);
    lemma_div_multiples_vanish_fancy(a, MEIO as int, UM as int);
    assert((UM as int) * a == a * (UM as int));
}

/// Multiplicar pela taxa nula anula o produto.
pub proof fn lei_produto_zero(b: int)
    requires
        0 <= b <= UM,
    ensures
        produto_espec(0, b) == 0,
        produto_espec(b, 0) == 0,
{
    assert(0 * b == 0) by {
        lemma_mul_by_zero_is_zero(b);
    }
    assert(b * 0 == 0) by {
        lemma_mul_by_zero_is_zero(b);
    }
    lemma_basic_div(MEIO as int, UM as int);
}

/// O produto e monotono nas duas posicoes.
pub proof fn lei_produto_monotono(a1: int, a2: int, b1: int, b2: int)
    requires
        0 <= a1 <= a2,
        0 <= b1 <= b2,
    ensures
        produto_espec(a1, b1) <= produto_espec(a2, b2),
{
    lemma_mul_upper_bound(a1, a2, b1, b2);
    lemma_div_is_ordered(a1 * b1 + MEIO, a2 * b2 + MEIO, UM as int);
}

/// A potencia de uma taxa valida e uma taxa valida.
pub proof fn lei_potencia_limites(v: int, k: nat)
    requires
        0 <= v <= UM,
    ensures
        0 <= potencia_espec(v, k) <= UM,
    decreases k,
{
    if k > 0 {
        lei_potencia_limites(v, (k - 1) as nat);
        lei_produto_limites(v, potencia_espec(v, (k - 1) as nat));
    }
}

/// A potencia e monotona na base.
pub proof fn lei_potencia_monotona(a: int, b: int, k: nat)
    requires
        0 <= a <= b <= UM,
    ensures
        potencia_espec(a, k) <= potencia_espec(b, k),
    decreases k,
{
    if k > 0 {
        lei_potencia_monotona(a, b, (k - 1) as nat);
        lei_potencia_limites(a, (k - 1) as nat);
        lei_produto_monotono(a, b, potencia_espec(a, (k - 1) as nat), potencia_espec(b, (k - 1) as nat));
    }
}

/// A potencia de expoente positivo da taxa nula e nula.
pub proof fn lei_potencia_zero(k: nat)
    requires
        k >= 1,
    ensures
        potencia_espec(0, k) == 0,
{
    lei_potencia_limites(0, (k - 1) as nat);
    lei_produto_zero(potencia_espec(0, (k - 1) as nat));
}

/// A razao de inteiros ordenados e uma taxa valida; nos extremos ela
/// vale exatamente zero ou um.
pub proof fn lei_razao_limites(num: int, den: int)
    requires
        0 <= num <= den,
        0 < den,
    ensures
        0 <= razao_espec(num, den) <= UM,
        num == 0 ==> razao_espec(num, den) == 0,
        num == den ==> razao_espec(num, den) == UM,
{
    lemma_mul_nonnegative(num, UM as int);
    lemma_div_pos_is_pos(num * (UM as int) + den / 2, den);
    assert(razao_espec(num, den) <= UM) by {
        lemma_mul_inequality(num, den, UM as int);
        assert(num * (UM as int) + den / 2 < den * ((UM as int) + 1)) by {
            lemma_mul_is_distributive_add(den, UM as int, 1);
            lemma_mul_basics(den);
            lemma_mul_is_commutative(den, UM as int);
        }
        lemma_multiply_divide_lt(num * (UM as int) + den / 2, den, (UM as int) + 1);
    }
    if num == 0 {
        assert(0 * (UM as int) == 0) by {
            lemma_mul_by_zero_is_zero(UM as int);
        }
        lemma_basic_div(den / 2, den);
    }
    if num == den {
        lemma_div_multiples_vanish_fancy(UM as int, den / 2, den);
        lemma_mul_is_commutative(den, UM as int);
    }
}

/// Produto de duas taxas, arredondado ao bilionesimo mais proximo.
pub fn produto(a: Taxa, b: Taxa) -> (r: Taxa)
    ensures
        r.ver() == produto_espec(a.ver(), b.ver()),
{
    proof {
        use_type_invariant(a);
        use_type_invariant(b);
        lei_produto_limites(a.ver(), b.ver());
    }
    let p: u128 = (a.valor as u128) * (b.valor as u128) + (MEIO as u128);
    let q: u128 = p / (UM as u128);
    Taxa { valor: q as u64 }
}

/// Soma de duas taxas, limitada pela certeza.
pub fn soma_limitada(a: Taxa, b: Taxa) -> (r: Taxa)
    ensures
        r.ver() == soma_limitada_espec(a.ver(), b.ver()),
{
    proof {
        use_type_invariant(a);
        use_type_invariant(b);
    }
    let s: u64 = a.valor + b.valor;
    if s > UM {
        Taxa { valor: UM }
    } else {
        Taxa { valor: s }
    }
}

/// Complemento de uma taxa: a probabilidade do evento contrario.
pub fn complemento(a: Taxa) -> (r: Taxa)
    ensures
        r.ver() == UM - a.ver(),
{
    proof {
        use_type_invariant(a);
    }
    Taxa { valor: UM - a.valor }
}

/// Quociente `num/den` como taxa, arredondado ao mais proximo.
pub fn razao(num: u64, den: u64) -> (r: Taxa)
    requires
        0 < den,
        num <= den,
    ensures
        r.ver() == razao_espec(num as int, den as int),
{
    proof {
        lei_razao_limites(num as int, den as int);
        lemma_mul_upper_bound(num as int, u64::MAX as int, UM as int, UM as int);
    }
    let p: u128 = (num as u128) * (UM as u128) + ((den / 2) as u128);
    let q: u128 = p / (den as u128);
    Taxa { valor: q as u64 }
}

/// Potencia de expoente natural, pelo produto iterado.
pub fn potencia(v: Taxa, k: u64) -> (r: Taxa)
    ensures
        r.ver() == potencia_espec(v.ver(), k as nat),
{
    let mut acc = Taxa { valor: UM };
    let mut i: u64 = 0;
    while i < k
        invariant
            i <= k,
            acc.ver() == potencia_espec(v.ver(), i as nat),
        decreases k - i,
    {
        acc = produto(v, acc);
        i = i + 1;
    }
    acc
}

/// Abaixo da raiz a potencia nao excede `v`; acima dela, excede.
pub proof fn lei_raiz_busca(v: int, k: nat, m: nat)
    requires
        1 <= k,
        0 <= v,
        m <= UM,
    ensures
        0 <= raiz_busca(v, k, m) <= m,
        potencia_espec(raiz_busca(v, k, m), k) <= v,
        forall|j: int| raiz_busca(v, k, m) < j <= m ==> potencia_espec(j, k as nat) > v,
    decreases m,
{
    if m == 0 {
        lei_potencia_zero(k);
    } else if potencia_espec(m as int, k) <= v {
    } else {
        lei_raiz_busca(v, k, (m - 1) as nat);
    }
}

/// A raiz e o unico ponto em que a potencia cruza `v`.
pub proof fn lei_raiz_unica(r: int, v: int, k: nat)
    requires
        1 <= k,
        0 <= v,
        0 <= r <= UM,
        potencia_espec(r, k) <= v,
        r == UM || potencia_espec(r + 1, k) > v,
    ensures
        r == raiz_espec(v, k),
{
    lei_raiz_busca(v, k, UM as nat);
    let rb = raiz_busca(v, k, UM as nat);
    if r < rb {
        assert(potencia_espec(r + 1, k) > v);
        lei_potencia_monotona(r + 1, rb, k);
    }
    if r > rb {
        assert(potencia_espec(r, k) > v);
    }
}

/// A raiz da potencia de uma taxa nunca fica abaixo da taxa original e
/// compoe exatamente para a mesma potencia.
pub proof fn lei_raiz_da_potencia(w: int, k: nat)
    requires
        1 <= k,
        0 <= w <= UM,
    ensures
        w <= raiz_espec(potencia_espec(w, k), k) <= UM,
        potencia_espec(raiz_espec(potencia_espec(w, k), k), k) == potencia_espec(w, k),
{
    let v = potencia_espec(w, k);
    lei_potencia_limites(w, k);
    lei_raiz_busca(v, k, UM as nat);
    let r = raiz_busca(v, k, UM as nat);
    if r < w {
        assert(potencia_espec(w, k) > v);
    }
    lei_potencia_monotona(w, r, k);
}

/// Raiz `k`-esima de uma taxa: a maior taxa cuja potencia de expoente
/// `k` nao excede `v`, achada por busca binaria.
pub fn raiz(v: Taxa, k: u64) -> (r: Taxa)
    requires
        1 <= k,
    ensures
        r.ver() == raiz_espec(v.ver(), k as nat),
        potencia_espec(r.ver(), k as nat) <= v.ver(),
        r.ver() == UM || potencia_espec(r.ver() + 1, k as nat) > v.ver(),
{
    proof {
        use_type_invariant(v);
        lei_potencia_zero(k as nat);
    }
    let mut lo: u64 = 0;
    let mut hi: u64 = UM;
    while lo < hi
        invariant
            1 <= k,
            lo <= hi <= UM,
            0 <= v.ver() <= UM,
            potencia_espec(lo as int, k as nat) <= v.ver(),
            hi == UM || potencia_espec(hi as int + 1, k as nat) > v.ver(),
        decreases hi - lo,
    {
        let centro: u64 = lo + (hi - lo + 1) / 2;
        let p = potencia(Taxa { valor: centro }, k);
        proof {
            use_type_invariant(p);
        }
        if p.valor() <= v.valor() {
            lo = centro;
        } else {
            hi = centro - 1;
        }
    }
    proof {
        lei_raiz_unica(lo as int, v.ver(), k as nat);
    }
    Taxa { valor: lo }
}

} // verus!
