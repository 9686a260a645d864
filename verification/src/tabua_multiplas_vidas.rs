//! Tabua de multiplas vidas: um conjunto de vidas independentes cujo
//! status termina no primeiro decremento (First) ou no ultimo (Last).
//!
//! Para o status Last a sobrevivencia e calculada periodo a periodo, como
//! o produto de um menos a probabilidade conjunta de decremento em cada
//! periodo passado -- nao como o produto das sobrevivencias individuais.

use crate::duracao::DuracaoEstendida;
use crate::interface::TabuaInterface;
use crate::periodicidade::Periodicidade;
use crate::tabua::{extrair_tabua_base_e_periodicidade, Tabua};
use crate::tabua_base::{
    base_valida, bases_validas, lei_qx_limites, produto_tpx_espec, qx_base, tempo_maximo_espec,
    tempo_minimo_espec, TabuaBase,
};
use crate::taxa::{
    complemento, lei_produto_um, potencia_espec, produto, produto_espec,
    Taxa, UM,
};
use vstd::prelude::*;

verus! {

/// Como o status do conjunto de vidas termina: no primeiro decremento ou
/// no ultimo.
#[derive(Clone, Copy, Debug, PartialEq, Eq, Structural)]
pub enum StatusVidasConjuntas {
    First,
    Last,
}

/// Produto das taxas de decremento das `k` primeiras vidas no periodo
/// `x + t`: todas decrementam no mesmo periodo.
pub open spec fn produto_qx_espec(bases: Seq<TabuaBase>, x: Seq<u16>, t: u16, k: nat) -> int
    decreases k,
{
    if k == 0 {
        UM as int
    } else {
        produto_espec(
            produto_qx_espec(bases, x, t, (k - 1) as nat),
            qx_base(bases[k - 1], x[k - 1] as int, DuracaoEstendida::Finita(t)),
        )
    }
}

/// Produto dos complementos das taxas das `k` primeiras vidas no periodo
/// `x + t`: nenhuma decrementa.
pub open spec fn produto_complementos_espec(bases: Seq<TabuaBase>, x: Seq<u16>, t: u16, k: nat) -> int
    decreases k,
{
    if k == 0 {
        UM as int
    } else {
        produto_espec(
            produto_complementos_espec(bases, x, t, (k - 1) as nat),
            (UM as int) - qx_base(bases[k - 1], x[k - 1] as int, DuracaoEstendida::Finita(t)),
        )
    }
}

/// Probabilidade de o conjunto decrementar no periodo `x + t`: ao menos
/// uma vida (First) ou todas as vidas (Last).
pub open spec fn qx_conjunto_espec(
    bases: Seq<TabuaBase>,
    status: StatusVidasConjuntas,
    x: Seq<u16>,
    t: u16,
) -> int {
    match status {
        StatusVidasConjuntas::First => (UM as int) - produto_complementos_espec(
            bases,
            x,
            t,
            bases.len(),
        ),
        StatusVidasConjuntas::Last => produto_qx_espec(bases, x, t, bases.len()),
    }
}

/// Sobrevivencia do status Last por `t` periodos: o produto recursivo,
/// sobre os periodos passados, de um menos a probabilidade conjunta de
/// decremento.
pub open spec fn tpx_ultimo_espec(bases: Seq<TabuaBase>, x: Seq<u16>, t: u16) -> int
    decreases t,
{
    if t == 0 {
        UM as int
    } else {
        produto_espec(
            tpx_ultimo_espec(bases, x, (t - 1) as u16),
            (UM as int) - qx_conjunto_espec(bases, StatusVidasConjuntas::Last, x, (t - 1) as u16),
        )
    }
}

/// Sobrevivencia do conjunto por `t` periodos.
pub open spec fn tpx_conjunto_espec(
    bases: Seq<TabuaBase>,
    status: StatusVidasConjuntas,
    x: Seq<u16>,
    t: u16,
) -> int {
    match status {
        StatusVidasConjuntas::First => produto_tpx_espec(bases, x, t, bases.len()),
        StatusVidasConjuntas::Last => tpx_ultimo_espec(bases, x, t),
    }
}

/// Tempo futuro maximo do conjunto: o menor dos tempos para First, o
/// maior para Last.
pub open spec fn tempo_conjunto_espec(
    bases: Seq<TabuaBase>,
    status: StatusVidasConjuntas,
    x: Seq<u16>,
) -> DuracaoEstendida {
    match status {
        StatusVidasConjuntas::First => tempo_minimo_espec(bases, x, bases.len()),
        StatusVidasConjuntas::Last => tempo_maximo_espec(bases, x, bases.len()),
    }
}



/// Tabua de multiplas vidas, imutavel depois de construida.
pub struct TabuaMultiplasVidas {
    tabuas: Vec<TabuaBase>,
    status_vidas_conjuntas: StatusVidasConjuntas,
    periodicidade: Periodicidade,
}

impl TabuaMultiplasVidas {
    /// As bases das vidas, em ordem.
    pub closed spec fn bases(self) -> Seq<TabuaBase> {
        self.tabuas@
    }

    /// O status do conjunto.
    pub closed spec fn status(self) -> StatusVidasConjuntas {
        self.status_vidas_conjuntas
    }

    #[verifier::type_invariant]
    closed spec fn bem_formada(self) -> bool {
        1 <= self.tabuas@.len()
    }

    /// Fatos estruturais garantidos de todo conjunto construido.
    pub fn estrutura(&self)
        ensures
            1 <= self.bases().len(),
            bases_validas(self.bases()),
    {
        proof {
            use_type_invariant(&*self);
        }
        let mut k: usize = 0;
        while k < self.tabuas.len()
            invariant
                k <= self.tabuas@.len(),
                forall|i: int| 0 <= i < k ==> base_valida(#[trigger] self.tabuas@[i]),
            decreases self.tabuas@.len() - k,
        {
            self.tabuas[k].estrutura();
            k = k + 1;
        }
    }

    /// Combina uma ou mais tabuas de mesma periodicidade num conjunto de
    /// vidas com o status dado.
    pub fn new(tabuas: Vec<Tabua>, status_vidas_conjuntas: StatusVidasConjuntas) -> (r:
        TabuaMultiplasVidas)
        requires
            1 <= tabuas@.len(),
            forall|i: int| 0 <= i < tabuas@.len() ==> #[trigger] tabuas@[i].periodicidade_espec()
                == tabuas@[0].periodicidade_espec(),
        ensures
            r.bases().len() == tabuas@.len(),
            forall|i: int| 0 <= i < tabuas@.len() ==> #[trigger] r.bases()[i].taxas()
                == tabuas@[i].base().taxas(),
            forall|i: int| 0 <= i < tabuas@.len() ==> #[trigger] r.bases()[i].fecho()
                == tabuas@[i].base().fecho(),
            r.status() == status_vidas_conjuntas,
            r.periodicidade_espec() == tabuas@[0].periodicidade_espec(),
    {
        let (bases, periodicidade) = extrair_tabua_base_e_periodicidade(tabuas);
        TabuaMultiplasVidas { tabuas: bases, status_vidas_conjuntas, periodicidade }
    }
}

impl TabuaInterface for TabuaMultiplasVidas {
    closed spec fn periodicidade_espec(&self) -> Periodicidade {
        self.periodicidade
    }

    open spec fn decrementos_espec(&self) -> int {
        1
    }

    open spec fn vidas_espec(&self) -> int {
        self.bases().len() as int
    }

    open spec fn tempo_futuro_modelo(&self, x: Seq<u16>) -> DuracaoEstendida {
        tempo_conjunto_espec(self.bases(), self.status(), x)
    }

    open spec fn qx_modelo(&self, x: Seq<u16>, t: u16) -> int {
        qx_conjunto_espec(self.bases(), self.status(), x, t)
    }

    open spec fn tpx_modelo(&self, x: Seq<u16>, t: u16) -> int {
        tpx_conjunto_espec(self.bases(), self.status(), x, t)
    }

    fn periodicidade(&self) -> (r: Periodicidade) {
        self.periodicidade
    }

    fn numero_decrementos(&self) -> (r: usize) {
        1
    }

    fn numero_vidas(&self) -> (r: usize) {
        proof {
            use_type_invariant(&*self);
        }
        self.tabuas.len()
    }

    /// O tempo futuro maximo do conjunto: o menor dos tempos das vidas
    /// para First, o maior para Last.
    fn tempo_futuro_maximo(&self, x: &Vec<u16>) -> (r: DuracaoEstendida) {
        proof {
            use_type_invariant(&*self);
        }
        let mut r = self.tabuas[0].tempo_futuro_maximo(x[0]);
        let mut k: usize = 1;
        match self.status_vidas_conjuntas {
            StatusVidasConjuntas::First => {
                while k < self.tabuas.len()
                    invariant
                        x@.len() == self.tabuas@.len(),
                        1 <= k <= self.tabuas@.len(),
                        r == tempo_minimo_espec(self.bases(), x@, k as nat),
                    decreases self.tabuas@.len() - k,
                {
                    let proximo = self.tabuas[k].tempo_futuro_maximo(x[k]);
                    r = r.minimo(proximo);
                    k = k + 1;
                }
            },
            StatusVidasConjuntas::Last => {
                while k < self.tabuas.len()
                    invariant
                        x@.len() == self.tabuas@.len(),
                        1 <= k <= self.tabuas@.len(),
                        r == tempo_maximo_espec(self.bases(), x@, k as nat),
                    decreases self.tabuas@.len() - k,
                {
                    let proximo = self.tabuas[k].tempo_futuro_maximo(x[k]);
                    r = r.maximo(proximo);
                    k = k + 1;
                }
            },
        }
        r
    }

    /// Probabilidade de o conjunto decrementar no periodo `x + t`: um
    /// menos o produto dos complementos (First) ou o produto das taxas
    /// (Last).
    fn qx(&self, x: &Vec<u16>, t: u16) -> (r: Taxa) {
        proof {
            use_type_invariant(&*self);
        }
        let mut acc = Taxa::nova(UM);
        let mut k: usize = 0;
        match self.status_vidas_conjuntas {
            StatusVidasConjuntas::First => {
                while k < self.tabuas.len()
                    invariant
                        x@.len() == self.tabuas@.len(),
                        k <= self.tabuas@.len(),
                        acc.ver() == produto_complementos_espec(self.bases(), x@, t, k as nat),
                    decreases self.tabuas@.len() - k,
                {
                    let q = self.tabuas[k].qx(x[k], DuracaoEstendida::Finita(t));
                    acc = produto(acc, complemento(q));
                    k = k + 1;
                }
                complemento(acc)
            },
            StatusVidasConjuntas::Last => {
                while k < self.tabuas.len()
                    invariant
                        x@.len() == self.tabuas@.len(),
                        k <= self.tabuas@.len(),
                        acc.ver() == produto_qx_espec(self.bases(), x@, t, k as nat),
                    decreases self.tabuas@.len() - k,
                {
                    let q = self.tabuas[k].qx(x[k], DuracaoEstendida::Finita(t));
                    acc = produto(acc, q);
                    k = k + 1;
                }
                acc
            },
        }
    }

    /// Sobrevivencia do conjunto por `t` periodos: o produto das
    /// sobrevivencias individuais (First) ou a recursao por periodo
    /// (Last).
    fn tpx(&self, x: &Vec<u16>, t: u16) -> (r: Taxa) {
        proof {
            use_type_invariant(&*self);
        }
        match self.status_vidas_conjuntas {
            StatusVidasConjuntas::First => {
                let mut acc = Taxa::nova(UM);
                let mut k: usize = 0;
                while k < self.tabuas.len()
                    invariant
                        x@.len() == self.tabuas@.len(),
                        k <= self.tabuas@.len(),
                        acc.ver() == produto_tpx_espec(self.bases(), x@, t, k as nat),
                    decreases self.tabuas@.len() - k,
                {
                    let parcela = self.tabuas[k].tpx(x[k], DuracaoEstendida::Finita(t));
                    acc = produto(acc, parcela);
                    k = k + 1;
                }
                acc
            },
            StatusVidasConjuntas::Last => {
                let mut acc = Taxa::nova(UM);
                let mut s: u16 = 0;
                while s < t
                    invariant
                        x@.len() == self.decrementos_espec() * self.vidas_espec(),
                        self.status() == StatusVidasConjuntas::Last,
                        s <= t,
                        acc.ver() == tpx_ultimo_espec(self.bases(), x@, s),
                    decreases t - s,
                {
                    let q = self.qx(x, s);
                    acc = produto(acc, complemento(q));
                    s = s + 1;
                }
                acc
            },
        }
    }
}

/// Lei: num conjunto First de duas vidas identicas com a mesma duracao de
/// entrada, a probabilidade de decremento do conjunto e `1 - (1 - q)^2`,
/// com `q` a taxa comum das duas vidas no periodo.
pub proof fn lei_primeira_com_duas_vidas_iguais(bases: Seq<TabuaBase>, x: Seq<u16>, t: u16)
    requires
        bases.len() == 2,
        x.len() == 2,
        bases[1].taxas() == bases[0].taxas(),
        bases[1].fecho() == bases[0].fecho(),
        x[1] == x[0],
        base_valida(bases[0]),
    ensures
        qx_conjunto_espec(bases, StatusVidasConjuntas::First, x, t) == (UM as int) - potencia_espec(
            (UM as int) - qx_base(bases[0], x[0] as int, DuracaoEstendida::Finita(t)),
            2,
        ),
{
    let q = qx_base(bases[0], x[0] as int, DuracaoEstendida::Finita(t));
    lei_qx_limites(bases[0].taxas(), bases[0].fecho(), x[0] as int, DuracaoEstendida::Finita(t));
    let c = (UM as int) - q;
    assert(qx_base(bases[1], x[1] as int, DuracaoEstendida::Finita(t)) == q);
    assert(produto_complementos_espec(bases, x, t, 0) == UM);
    assert(produto_complementos_espec(bases, x, t, 1) == produto_espec(UM as int, c));
    lei_produto_um(c);
    assert(produto_complementos_espec(bases, x, t, 2) == produto_espec(c, c));
    assert(potencia_espec(c, 0) == UM);
    assert(potencia_espec(c, 1) == produto_espec(c, potencia_espec(c, 0)));
    assert(potencia_espec(c, 2) == produto_espec(c, potencia_espec(c, 1)));
}

/// Lei: a sobrevivencia do status Last obedece a recursao por periodo --
/// um passo multiplica pela probabilidade de o conjunto nao decrementar
/// no periodo anterior.
pub proof fn lei_ultimo_recursivo(bases: Seq<TabuaBase>, x: Seq<u16>, t: u16)
    requires
        1 <= t,
    ensures
        tpx_ultimo_espec(bases, x, t) == produto_espec(
            tpx_ultimo_espec(bases, x, (t - 1) as u16),
            (UM as int) - qx_conjunto_espec(bases, StatusVidasConjuntas::Last, x, (t - 1) as u16),
        ),
{
}

} // verus!
