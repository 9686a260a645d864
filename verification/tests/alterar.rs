use tabatu::alterar::{agravar_qx, alterar_periodicidade, aumentar_periodicidade, reduzir_periodicidade};
use tabatu::taxa::UM;
use tabatu::Taxa;

fn milesimos(v: u64) -> Taxa {
    Taxa::nova(v * 1_000_000)
}

fn arredonda_milesimos(taxas: &Vec<Taxa>) -> Vec<u64> {
    taxas.iter().map(|v| (v.valor() * 1000 + UM / 2) / UM).collect()
}

#[test]
fn aumentar_periodicidade_funciona() {
    let qx_original = vec![milesimos(100), milesimos(500), milesimos(700), milesimos(1000)];
    let qx_esperado = vec![
        milesimos(190),
        milesimos(190),
        milesimos(750),
        milesimos(750),
        milesimos(910),
        milesimos(910),
        milesimos(1000),
        milesimos(1000),
    ];

    let qx_obtido = aumentar_periodicidade(qx_original, 2);
    assert_eq!(qx_esperado, qx_obtido);
}

#[test]
fn reduzir_periodicidade_funciona() {
    let qx_original = vec![
        milesimos(190),
        milesimos(190),
        milesimos(750),
        milesimos(750),
        milesimos(910),
        milesimos(910),
        milesimos(1000),
        milesimos(1000),
    ];
    let qx_esperado = vec![100, 500, 700, 1000];

    let qx_obtido = reduzir_periodicidade(qx_original, 2);

    assert_eq!(qx_esperado, arredonda_milesimos(&qx_obtido));
}

#[test]
fn alterar_periodicidade_funciona_quando_aumenta() {
    let qx_original = vec![milesimos(100), milesimos(500), milesimos(700), milesimos(1000)];
    let qx_esperado = vec![
        milesimos(190),
        milesimos(190),
        milesimos(750),
        milesimos(750),
        milesimos(910),
        milesimos(910),
        milesimos(1000),
        milesimos(1000),
    ];

    let qx_obtido = alterar_periodicidade(qx_original, 1, 2);
    assert_eq!(qx_esperado, qx_obtido);
}

#[test]
fn alterar_periodicidade_funciona_quando_reduz() {
    let qx_original = vec![
        milesimos(190),
        milesimos(190),
        milesimos(750),
        milesimos(750),
        milesimos(910),
        milesimos(910),
        milesimos(1000),
        milesimos(1000),
    ];
    let qx_esperado = vec![100, 500, 700, 1000];

    let qx_obtido = alterar_periodicidade(qx_original, 2, 1);
    assert_eq!(qx_esperado, arredonda_milesimos(&qx_obtido));
}

#[test]
fn agravar_qx_nao_gera_qx_com_valores_acima_de_1() {
    let qx_original = vec![milesimos(100), milesimos(500), milesimos(700), milesimos(1000)];
    let qx_esperado = vec![milesimos(200), milesimos(1000), milesimos(1000), milesimos(1000)];

    let qx_obtido = agravar_qx(qx_original, 2 * UM);
    assert_eq!(qx_esperado, qx_obtido);
}

#[test]
fn agravar_qx_com_fator_zero_zera_as_taxas_abaixo_da_certeza() {
    let qx_original = vec![milesimos(100), milesimos(500), milesimos(700), milesimos(1000)];
    let qx_esperado = vec![milesimos(0), milesimos(0), milesimos(0), milesimos(1000)];

    let qx_obtido = agravar_qx(qx_original, 0);
    assert_eq!(qx_esperado, qx_obtido);
}

#[test]
fn agravar_qx_nao_desagrava_qx_que_sao_1() {
    let qx_original = vec![milesimos(100), milesimos(500), milesimos(700), milesimos(1000)];
    let qx_esperado = vec![milesimos(80), milesimos(400), milesimos(560), milesimos(1000)];

    let qx_obtido = agravar_qx(qx_original, 800_000_000);
    assert_eq!(qx_esperado, qx_obtido);
}
