use tabatu::tabua_mdt::{converter_mdt, qx2qxj};
use tabatu::taxa::{produto, soma_limitada, UM};
use tabatu::{Periodicidade, Tabua, TabuaInterface, TabuaMDT, Taxa};

fn taxa_mdt(v: u64) -> Taxa {
    Taxa::nova(v * 1_000_000)
}

fn criar_tabua_1dt_1() -> Tabua {
    Tabua::new(
        vec![taxa_mdt(0), taxa_mdt(100), taxa_mdt(500), taxa_mdt(800), taxa_mdt(1000)],
        Periodicidade::Mensal,
    )
}

fn criar_tabua_1dt_2() -> Tabua {
    Tabua::new(
        vec![taxa_mdt(0), taxa_mdt(200), taxa_mdt(400), taxa_mdt(700), taxa_mdt(1000)],
        Periodicidade::Mensal,
    )
}

fn criar_tabua_1dt_plato() -> Tabua {
    Tabua::new(
        vec![taxa_mdt(0), taxa_mdt(200), taxa_mdt(400), taxa_mdt(700), taxa_mdt(800)],
        Periodicidade::Mensal,
    )
}

#[test]
fn tabua_mdt_pode_ser_criada_a_partir_de_outras_tabuas() {
    let tabua = criar_tabua_1dt_1();
    TabuaMDT::new(vec![tabua.clone(), tabua.clone()]);
    assert!(true)
}

#[test]
fn converter_mdt_preenche_com_zero_quando_recebe_2_elementos() {
    let result = converter_mdt(vec![taxa_mdt(100), taxa_mdt(200)]);

    assert_eq!(result.len(), 3);
    assert_eq!(result[2], taxa_mdt(0));
}

#[test]
fn converter_mdt_preenche_com_zero_quando_recebe_1_elemento() {
    let result = converter_mdt(vec![taxa_mdt(100)]);

    assert_eq!(result.len(), 3);
    assert_eq!(result[1], taxa_mdt(0));
    assert_eq!(result[2], taxa_mdt(0));
}

#[test]
fn calculo_qxj_funciona_com_1_componente() {
    let qx = taxa_mdt(400);

    let result = qx2qxj(qx, taxa_mdt(0), taxa_mdt(0));

    assert_eq!(result, qx);
}

#[test]
fn calculo_qxj_funciona_com_2_componentes() {
    let qx1 = taxa_mdt(400);
    let qx2 = taxa_mdt(800);
    let result = qx2qxj(qx1, qx2, taxa_mdt(0));

    let fator = Taxa::nova(UM - qx2.valor() / 2);
    assert_eq!(result, produto(qx1, fator));
}

#[test]
fn calculo_qxj_funciona_com_3_componentes() {
    let qx1 = taxa_mdt(400);
    let qx2 = taxa_mdt(800);
    let qx3 = taxa_mdt(200);

    let result = qx2qxj(qx1, qx2, qx3);

    let fator = Taxa::nova(
        UM - (qx2.valor() + qx3.valor()) / 2 + produto(qx2, qx3).valor() / 3,
    );
    assert_eq!(result, produto(qx1, fator));
}

#[test]
fn tpx_eh_produto_do_tpx_de_cada_tabua() {
    let tabua1 = criar_tabua_1dt_1();
    let tabua2 = criar_tabua_1dt_2();
    let tabua_mdt = TabuaMDT::new(vec![tabua1.clone(), tabua2.clone()]);

    let x = vec![2, 1];
    let t = 2;

    let result = tabua_mdt.tpx(&x, t);

    assert_eq!(result, produto(tabua1.tpx(&vec![x[0]], t), tabua2.tpx(&vec![x[1]], t)));
}

#[test]
fn qx_retorna_a_soma_de_qxj() {
    let tabua1 = criar_tabua_1dt_1();
    let tabua2 = criar_tabua_1dt_2();
    let tabua_mdt = TabuaMDT::new(vec![tabua1, tabua2]);

    let x = vec![2, 1];
    let t = 2;

    let qx_0 = tabua_mdt.qx_j(&x, t, 0);
    let qx_1 = tabua_mdt.qx_j(&x, t, 1);
    let result = tabua_mdt.qx(&x, t);

    assert_eq!(result, soma_limitada(qx_0, qx_1));
}

#[test]
fn qx_e_a_soma_plana_de_qxj_quando_ela_cabe_na_certeza() {
    let tabua1 = criar_tabua_1dt_1();
    let tabua2 = criar_tabua_1dt_2();
    let tabua_mdt = TabuaMDT::new(vec![tabua1, tabua2]);

    let x = vec![2, 1];
    let t = 1;

    let qx_0 = tabua_mdt.qx_j(&x, t, 0);
    let qx_1 = tabua_mdt.qx_j(&x, t, 1);
    let result = tabua_mdt.qx(&x, t);

    assert!(qx_0.valor() + qx_1.valor() <= UM);
    assert_eq!(result.valor(), qx_0.valor() + qx_1.valor());
}

#[test]
fn tempo_futuro_maximo_retorna_o_menor_dos_tempos_futuros_de_cada_tabua() {
    let tabua1 = criar_tabua_1dt_1();
    let tabua2 = criar_tabua_1dt_plato();
    let tabua_mdt = TabuaMDT::new(vec![tabua1.clone(), tabua2.clone()]);

    let x = vec![2, 1];
    let result = tabua_mdt.tempo_futuro_maximo(&x);

    let result_tabua1 = tabua1.tempo_futuro_maximo(&vec![x[0]]);
    let result_tabua2 = tabua2.tempo_futuro_maximo(&vec![x[1]]);

    assert_eq!(result, result_tabua1.minimo(result_tabua2));
}
